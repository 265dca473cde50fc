//! Characters, columns and byte offsets of one line of text.
//!
//! The editor addresses text by character column; `String` stores UTF-8 and is
//! edited by byte offset. This module states how the two relate and specifies
//! the `String` operations that the edit actions are built from.

use vstd::prelude::*;
use vstd::std_specs::iter::IteratorSpec;
use vstd::string::*;
use vstd::utf8::*;

verus! {

/// The number of bytes that the UTF-8 encoding of `c` takes.
pub open spec fn char_bytes(c: char) -> nat {
    encode_scalar(c as u32).len()
}

/// The number of bytes that the UTF-8 encoding of `s` takes.
pub open spec fn byte_len(s: Seq<char>) -> nat {
    encode_utf8(s).len()
}

/// The byte offset at which column `col` of `s` starts, or the byte length of
/// `s` where `col` is at or past its end.
pub open spec fn byte_offset(s: Seq<char>, col: int) -> nat {
    if col <= 0 {
        0
    } else if col >= s.len() {
        byte_len(s)
    } else {
        byte_len(s.take(col))
    }
}

/// The byte offset `b` falls between two characters of `s`, at its start or at
/// its end.
pub open spec fn on_boundary(s: Seq<char>, b: int) -> bool {
    exists|k: int| 0 <= k <= s.len() && #[trigger] byte_offset(s, k) == b
}

/// The column that starts at byte offset `b` of `s`.
pub open spec fn col_at(s: Seq<char>, b: int) -> int {
    choose|k: int| 0 <= k <= s.len() && #[trigger] byte_offset(s, k) == b
}

/// The lines of a buffer as sequences of characters.
pub open spec fn text_of(lines: Seq<String>) -> Seq<Seq<char>> {
    Seq::new(lines.len(), |i: int| lines[i]@)
}

/// A prefix of a line ends on a boundary of it, at the column that is its
/// length.
pub proof fn lemma_prefix_boundary(s: Seq<char>, p: Seq<char>)
    requires
        p.len() <= s.len(),
        s.take(p.len() as int) == p,
    ensures
        on_boundary(s, byte_len(p) as int),
        col_at(s, byte_len(p) as int) == p.len(),
        byte_offset(s, p.len() as int) == byte_len(p),
{
    lemma_byte_offset_split(s, p.len() as int);
    lemma_col_at_offset(s, p.len() as int);
}

/// Every character takes between one and four bytes.
pub proof fn lemma_char_bytes(c: char)
    ensures
        1 <= char_bytes(c) <= 4,
        char_bytes(c) == if (c as u32) < 0x80 {
            1nat
        } else if (c as u32) < 0x800 {
            2nat
        } else if (c as u32) < 0x10000 {
            3nat
        } else {
            4nat
        },
{
}

/// Encoding a concatenation gives the concatenation of the encodings.
pub proof fn lemma_encode_concat(a: Seq<char>, b: Seq<char>)
    ensures
        encode_utf8(a + b) == encode_utf8(a) + encode_utf8(b),
    decreases a.len(),
{
    if a.len() == 0 {
        assert(a + b =~= b);
        assert(encode_utf8(a) + encode_utf8(b) =~= encode_utf8(b));
    } else {
        assert((a + b).drop_first() =~= a.drop_first() + b);
        assert((a + b)[0] == a[0]);
        lemma_encode_concat(a.drop_first(), b);
        assert(encode_utf8(a + b) =~= encode_utf8(a) + encode_utf8(b));
    }
}

/// The byte length of a concatenation is the sum of the byte lengths.
pub proof fn lemma_byte_len_concat(a: Seq<char>, b: Seq<char>)
    ensures
        byte_len(a + b) == byte_len(a) + byte_len(b),
{
    lemma_encode_concat(a, b);
}

/// The byte length of one character is its width, and that of no character is 0.
pub proof fn lemma_byte_len_small(c: char)
    ensures
        byte_len(seq![c]) == char_bytes(c),
        byte_len(Seq::<char>::empty()) == 0,
{
    let s = seq![c];
    assert(s.drop_first() =~= Seq::<char>::empty());
    assert(encode_utf8(s) =~= encode_scalar(c as u32) + encode_utf8(s.drop_first()));
    assert(encode_utf8(s.drop_first()).len() == 0);
}

/// A text has at least as many bytes as characters.
pub proof fn lemma_byte_len_bounds(s: Seq<char>)
    ensures
        s.len() <= byte_len(s) <= 4 * s.len(),
    decreases s.len(),
{
    if s.len() > 0 {
        lemma_char_bytes(s[0]);
        lemma_byte_len_bounds(s.drop_first());
    }
}

/// Pushing a character adds its width to the byte length.
pub proof fn lemma_byte_len_push(s: Seq<char>, c: char)
    ensures
        byte_len(s.push(c)) == byte_len(s) + char_bytes(c),
{
    assert(s.push(c) =~= s + seq![c]);
    lemma_byte_len_concat(s, seq![c]);
    lemma_byte_len_small(c);
}

/// The byte offset of a column splits the byte length of the line in two.
pub proof fn lemma_byte_offset_split(s: Seq<char>, col: int)
    requires
        0 <= col <= s.len(),
    ensures
        byte_offset(s, col) == byte_len(s.take(col)),
        byte_offset(s, col) + byte_len(s.skip(col)) == byte_len(s),
        byte_offset(s, col) <= byte_len(s),
{
    assert(s.take(col) + s.skip(col) =~= s);
    lemma_byte_len_concat(s.take(col), s.skip(col));
    if col == 0 {
        assert(s.take(col) =~= Seq::<char>::empty());
    }
    if col == s.len() {
        assert(s.take(col) =~= s);
    }
}

/// Later columns start at later byte offsets.
pub proof fn lemma_byte_offset_increasing(s: Seq<char>, i: int, j: int)
    requires
        0 <= i < j <= s.len(),
    ensures
        byte_offset(s, i) + (j - i) <= byte_offset(s, j),
{
    lemma_byte_offset_split(s, i);
    lemma_byte_offset_split(s, j);
    let mid = s.subrange(i, j);
    assert(s.take(j) =~= s.take(i) + mid);
    lemma_byte_len_concat(s.take(i), mid);
    lemma_byte_len_bounds(mid);
}

/// The byte offset of a column is on a boundary, and the column found at that
/// offset is the same column.
pub proof fn lemma_col_at_offset(s: Seq<char>, col: int)
    requires
        0 <= col <= s.len(),
    ensures
        on_boundary(s, byte_offset(s, col) as int),
        col_at(s, byte_offset(s, col) as int) == col,
{
    let b = byte_offset(s, col) as int;
    let k = col_at(s, b);
    assert(0 <= k <= s.len() && byte_offset(s, k) == b);
    if k < col {
        lemma_byte_offset_increasing(s, k, col);
    }
    if col < k {
        lemma_byte_offset_increasing(s, col, k);
    }
}

/// On a boundary, the column found there is within the line and starts at
/// that byte offset.
pub proof fn lemma_col_at_boundary(s: Seq<char>, b: int)
    requires
        on_boundary(s, b),
    ensures
        0 <= col_at(s, b) <= s.len(),
        byte_offset(s, col_at(s, b)) == b,
        0 <= b <= byte_len(s),
        b == byte_len(s) <==> col_at(s, b) == s.len(),
        b == 0 <==> col_at(s, b) == 0,
{
    let k = col_at(s, b);
    lemma_byte_offset_split(s, k);
    if k < s.len() {
        lemma_byte_offset_increasing(s, k, s.len() as int);
    }
    if 0 < k {
        lemma_byte_offset_increasing(s, 0, k);
    }
}

/// `String::insert` puts `ch` in front of the character that starts at byte
/// offset `idx`, which has to lie on a character boundary.
pub assume_specification[ String::insert ](s: &mut String, idx: usize, ch: char)
    requires
        on_boundary(old(s)@, idx as int),
    ensures
        final(s)@ == old(s)@.insert(col_at(old(s)@, idx as int), ch),
;

/// `String::remove` takes out the character that starts at byte offset `idx`
/// and returns it; `idx` has to be the start of a character.
pub assume_specification[ String::remove ](s: &mut String, idx: usize) -> (ch: char)
    requires
        on_boundary(old(s)@, idx as int),
        idx < byte_len(old(s)@),
    ensures
        ch == old(s)@[col_at(old(s)@, idx as int)],
        final(s)@ == old(s)@.remove(col_at(old(s)@, idx as int)),
;

/// `String::insert_str` puts `string` in front of the character that starts at
/// byte offset `idx`, which has to lie on a character boundary.
pub assume_specification[ String::insert_str ](s: &mut String, idx: usize, string: &str)
    requires
        on_boundary(old(s)@, idx as int),
    ensures
        final(s)@ == old(s)@.take(col_at(old(s)@, idx as int)) + string@ + old(s)@.skip(
            col_at(old(s)@, idx as int),
        ),
;

/// `String::split_off` cuts the string at byte offset `at`, which has to lie on
/// a character boundary: what comes before stays, what comes after is returned.
pub assume_specification[ String::split_off ](s: &mut String, at: usize) -> (tail: String)
    requires
        on_boundary(old(s)@, at as int),
    ensures
        final(s)@ == old(s)@.take(col_at(old(s)@, at as int)),
        tail@ == old(s)@.skip(col_at(old(s)@, at as int)),
;

/// `String::push` appends one character.
pub assume_specification[ String::push ](s: &mut String, ch: char)
    ensures
        final(s)@ == old(s)@.push(ch),
;

/// `String::len` gives the length of the string in bytes. A string holds no
/// more than `isize::MAX` bytes, so twice its length fits in `usize`.
pub assume_specification[ String::len ](s: &String) -> (n: usize)
    ensures
        n == byte_len(s@),
        2 * n <= usize::MAX,
;

/// The length of `s` in bytes.
pub fn byte_length(s: &str) -> (n: usize)
    ensures
        n == byte_len(s@),
{
    s.as_bytes().len()
}

/// The number of bytes that `c` takes in UTF-8.
pub fn utf8_width(c: char) -> (n: usize)
    ensures
        n == char_bytes(c),
        1 <= n <= 4,
{
    proof {
        lemma_char_bytes(c);
    }
    let v: u32 = c as u32;
    if v < 0x80 {
        1
    } else if v < 0x800 {
        2
    } else if v < 0x10000 {
        3
    } else {
        4
    }
}

/// The number of characters in `s`.
pub fn char_count(s: &str) -> (n: usize)
    ensures
        n == s@.len(),
{
    s.unicode_len()
}

/// Texts in which a character column has a byte offset.
pub trait ByteIndex {
    /// The text that offsets are taken in.
    spec fn text(&self) -> Seq<char>;

    /// The byte offset at which column `char_idx` starts, or the byte length of
    /// the text where the column is at or past its end.
    fn byte_index(&self, char_idx: usize) -> (r: usize)
        ensures
            r == byte_offset(self.text(), char_idx as int),
    ;
}

impl ByteIndex for str {
    open spec fn text(&self) -> Seq<char> {
        self@
    }

    fn byte_index(&self, char_idx: usize) -> (r: usize) {
        let total: usize = byte_length(self);
        let mut offset: usize = 0;
        let mut col: usize = 0;
        let mut chars = self.chars();
        proof {
            broadcast use group_string_axioms;
            assert(self@.take(0) =~= Seq::<char>::empty());
        }
        while col < char_idx
            invariant
                col <= char_idx,
                col <= self@.len(),
                chars.remaining() == self@.skip(col as int),
                offset == byte_len(self@.take(col as int)),
                total == byte_len(self@),
                chars.obeys_prophetic_iter_laws(),
            decreases char_idx - col,
        {
            let ghost before = chars;
            match chars.next() {
                None => {
                    proof {
                        broadcast use group_string_axioms;
                        assert(self@.take(col as int) =~= self@);
                    }
                    return offset;
                },
                Some(c) => {
                    proof {
                        broadcast use group_string_axioms;
                        assert(self@.skip(col as int).len() > 0);
                        assert(c == self@[col as int]);
                        assert(self@.take(col + 1) =~= self@.take(col as int).push(c));
                        lemma_byte_len_push(self@.take(col as int), c);
                        lemma_byte_offset_split(self@, col + 1);
                        assert(self@.skip(col as int).drop_first() =~= self@.skip(col + 1));
                    }
                    offset = offset + utf8_width(c);
                    col = col + 1;
                },
            }
        }
        proof {
            lemma_byte_offset_split(self@, col as int);
        }
        offset
    }
}

/// The characters of `s`, in order.
pub fn to_chars(s: &str) -> (v: Vec<char>)
    ensures
        v@ == s@,
{
    let mut v: Vec<char> = Vec::new();
    let mut chars = s.chars();
    proof {
        broadcast use group_string_axioms;
    }
    loop
        invariant
            v@.len() <= s@.len(),
            v@ == s@.take(v@.len() as int),
            chars.remaining() == s@.skip(v@.len() as int),
            chars.obeys_prophetic_iter_laws(),
            chars.decrease() is Some,
        ensures
            v@ == s@,
        decreases s@.len() - v@.len(),
    {
        let ghost n = v@.len() as int;
        match chars.next() {
            None => {
                proof {
                    broadcast use group_string_axioms;
                    assert(s@.take(n) =~= s@);
                }
                break;
            },
            Some(c) => {
                proof {
                    broadcast use group_string_axioms;
                    assert(c == s@[n]);
                    assert(s@.skip(n).drop_first() =~= s@.skip(n + 1));
                    assert(s@.take(n + 1) =~= s@.take(n).push(c));
                }
                v.push(c);
            },
        }
    }
    v
}

/// A part of a text, addressed by character columns.
pub trait CharSlice {
    /// The text that the columns count in.
    spec fn chars_of(&self) -> Seq<char>;

    /// The characters from column `start` up to, not including, column `end`.
    /// Columns past the end of the text count as its end; where `end` is not
    /// after `start` the part is empty.
    fn char_slice(&self, start: usize, end: usize) -> (r: &str)
        ensures
            r@ == char_range(self.chars_of(), start as int, end as int),
    ;
}

/// The characters of `s` from column `start` up to, not including, column
/// `end`, both clipped to the length of `s`.
pub open spec fn char_range(s: Seq<char>, start: int, end: int) -> Seq<char> {
    let from = if start < s.len() {
        start
    } else {
        s.len() as int
    };
    let to = if end < s.len() {
        end
    } else {
        s.len() as int
    };
    if 0 <= from <= to {
        s.subrange(from, to)
    } else {
        Seq::empty()
    }
}

impl CharSlice for str {
    open spec fn chars_of(&self) -> Seq<char> {
        self@
    }

    fn char_slice(&self, start: usize, end: usize) -> (r: &str) {
        let n = self.unicode_len();
        let from = if start < n {
            start
        } else {
            n
        };
        let to = if end < n {
            end
        } else {
            n
        };
        if from <= to {
            self.substring_char(from, to)
        } else {
            let r = self.substring_char(from, from);
            assert(r@ =~= Seq::<char>::empty());
            r
        }
    }
}

/// The column that starts at byte offset `byte` of `s`, which has to lie on
/// a character boundary.
pub fn char_index(s: &str, byte: usize) -> (r: usize)
    requires
        on_boundary(s@, byte as int),
    ensures
        r == col_at(s@, byte as int),
        r <= s@.len(),
{
    let chars = to_chars(s);
    let n = chars.len();
    let mut col: usize = 0;
    let mut offset: usize = 0;
    proof {
        lemma_col_at_boundary(s@, byte as int);
        lemma_byte_offset_split(s@, 0);
    }
    while offset < byte
        invariant
            chars@ == s@,
            n == s@.len(),
            col <= n,
            offset == byte_offset(s@, col as int),
            offset <= byte,
            on_boundary(s@, byte as int),
            byte <= byte_len(s@),
        decreases n - col,
    {
        proof {
            let target = col_at(s@, byte as int);
            lemma_col_at_boundary(s@, byte as int);
            if target <= col {
                if target < col {
                    lemma_byte_offset_increasing(s@, target, col as int);
                }
                assert(false);
            }
            lemma_byte_offset_split(s@, col as int);
            lemma_byte_offset_split(s@, col + 1);
            assert(s@.take(col + 1) =~= s@.take(col as int).push(s@[col as int]));
            lemma_byte_len_push(s@.take(col as int), s@[col as int]);
            if col + 1 < target {
                lemma_byte_offset_increasing(s@, col + 1, target);
            }
        }
        offset = offset + utf8_width(chars[col]);
        col = col + 1;
    }
    proof {
        lemma_col_at_offset(s@, col as int);
    }
    col
}

/// Whether two texts are the same.
pub fn same_text(a: &str, b: &str) -> (r: bool)
    ensures
        r == (a@ == b@),
{
    let x = to_chars(a);
    let y = to_chars(b);
    if x.len() != y.len() {
        return false;
    }
    let mut i: usize = 0;
    while i < x.len()
        invariant
            i <= x.len(),
            x.len() == y.len(),
            x@ == a@,
            y@ == b@,
            x@.take(i as int) == y@.take(i as int),
        decreases x.len() - i,
    {
        if x[i] != y[i] {
            assert(a@[i as int] != b@[i as int]);
            return false;
        }
        assert(x@.take(i + 1) =~= x@.take(i as int).push(x@[i as int]));
        assert(y@.take(i + 1) =~= y@.take(i as int).push(y@[i as int]));
        i = i + 1;
    }
    assert(x@.take(i as int) =~= x@);
    assert(y@.take(i as int) =~= y@);
    true
}

/// The column that starts at byte offset `byte` of `s`, if that offset lies
/// on a character boundary.
pub fn column_at(s: &str, byte: usize) -> (r: Option<usize>)
    ensures
        match r {
            Some(col) => on_boundary(s@, byte as int) && col == col_at(s@, byte as int) && col
                <= s@.len(),
            None => !on_boundary(s@, byte as int),
        },
{
    let chars = to_chars(s);
    let n = chars.len();
    let total = byte_length(s);
    let mut col: usize = 0;
    let mut offset: usize = 0;
    proof {
        lemma_byte_offset_split(s@, 0);
    }
    while offset < byte && col < n
        invariant
            chars@ == s@,
            n == s@.len(),
            col <= n,
            offset == byte_offset(s@, col as int),
            total == byte_len(s@),
            forall|k: int| 0 <= k < col ==> byte_offset(s@, k) < byte,
        decreases n - col,
    {
        proof {
            lemma_byte_offset_split(s@, col as int);
            lemma_byte_offset_split(s@, col + 1);
            assert(s@.take(col + 1) =~= s@.take(col as int).push(s@[col as int]));
            lemma_byte_len_push(s@.take(col as int), s@[col as int]);
        }
        offset = offset + utf8_width(chars[col]);
        col = col + 1;
    }
    if offset == byte {
        proof {
            lemma_col_at_offset(s@, col as int);
        }
        Some(col)
    } else {
        proof {
            if on_boundary(s@, byte as int) {
                let k = col_at(s@, byte as int);
                lemma_col_at_boundary(s@, byte as int);
                if k > col {
                    lemma_byte_offset_increasing(s@, col as int, k);
                    lemma_byte_offset_split(s@, col as int);
                }
                if k == col {
                }
                assert(false);
            }
        }
        None
    }
}

} // verus!
