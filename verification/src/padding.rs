//! Counting decimal digits, and runs of fill characters: what labels and
//! padding are made of.

use vstd::prelude::*;
use vstd::string::*;

verus! {

/// The number of decimal digits of `n`.
pub open spec fn digits(n: nat) -> nat
    decreases n,
{
    if n < 10 {
        1
    } else {
        1 + digits(n / 10)
    }
}

/// Ten to the power `k`.
pub open spec fn ten_to(k: nat) -> nat
    decreases k,
{
    if k == 0 {
        1
    } else {
        10 * ten_to((k - 1) as nat)
    }
}

/// A number below ten to the `k` has at most `k` digits.
pub proof fn lemma_digits_bound(n: nat, k: nat)
    requires
        k >= 1,
        n < ten_to(k),
    ensures
        digits(n) <= k,
    decreases k,
{
    if n >= 10 {
        if k == 1 {
            assert(ten_to(1) == 10) by {
                reveal_with_fuel(ten_to, 2);
            }
        } else {
            lemma_digits_bound(n / 10, (k - 1) as nat);
        }
    }
}

/// Every number has at least one digit.
pub proof fn lemma_digits_positive(n: nat)
    ensures
        digits(n) >= 1,
    decreases n,
{
    if n >= 10 {
        lemma_digits_positive(n / 10);
    }
}

/// The number of decimal digits of `i`.
pub fn num_digits(i: usize) -> (r: u8)
    ensures
        r == digits(i as nat),
        1 <= r <= 20,
{
    proof {
        assert(ten_to(20) == 100000000000000000000) by {
            reveal_with_fuel(ten_to, 21);
        }
        lemma_digits_bound(i as nat, 20);
    }
    let mut count: u8 = 1;
    let mut rest: usize = i;
    while rest >= 10
        invariant
            1 <= count <= 20,
            digits(i as nat) == (count - 1) + digits(rest as nat),
            digits(i as nat) <= 20,
        decreases rest,
    {
        proof {
            lemma_digits_positive((rest / 10) as nat);
        }
        rest = rest / 10;
        count = count + 1;
    }
    count
}

/// A run of `size` spaces.
pub fn spaces(size: u8) -> (r: String)
    ensures
        r@ == Seq::new(size as nat, |i: int| ' '),
{
    fill(' ', size)
}

/// A run of `size` middle dots, the mark for white space at the end of a line.
pub fn dots(size: u8) -> (r: String)
    ensures
        r@ == Seq::new(size as nat, |i: int| '\u{b7}'),
{
    fill('\u{b7}', size)
}

/// A run of `size` times the character `c`.
fn fill(c: char, size: u8) -> (r: String)
    ensures
        r@ == Seq::new(size as nat, |i: int| c),
{
    let mut run = String::new();
    let mut i: u8 = 0;
    while i < size
        invariant
            i <= size,
            run@ == Seq::new(i as nat, |k: int| c),
        decreases size - i,
    {
        run.push(c);
        i = i + 1;
        assert(run@ =~= Seq::new(i as nat, |k: int| c));
    }
    run
}

} // verus!
