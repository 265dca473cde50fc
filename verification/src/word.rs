//! Word boundaries within one line.
//!
//! A word is a run of ASCII punctuation, or a run of characters that are
//! neither ASCII punctuation nor white space. Words are bounded by white space
//! or by a change from one kind of run to the other.

use crate::text::to_chars;
use vstd::prelude::*;

verus! {

/// Whether `char::is_whitespace` holds of `c`: whether Unicode gives the
/// character the property White_Space.
pub uninterp spec fn white_space(c: char) -> bool;

/// `char::is_whitespace` tells whether the character is white space.
pub assume_specification[ char::is_whitespace ](c: char) -> (b: bool)
    ensures
        b == white_space(c),
;

/// The ASCII punctuation characters: `!` to `/`, `:` to `@`, `[` to `` ` `` and
/// `{` to `~`.
pub open spec fn ascii_punctuation(c: char) -> bool {
    ||| '!' <= c <= '/'
    ||| ':' <= c <= '@'
    ||| '[' <= c <= '`'
    ||| '{' <= c <= '~'
}

/// `char::is_ascii_punctuation` tells whether the character is one of the
/// ASCII punctuation characters.
pub assume_specification[ char::is_ascii_punctuation ](c: &char) -> (b: bool)
    ensures
        b == ascii_punctuation(*c),
;

/// Whether `c` ends a run that began with `first`: a run of punctuation ends
/// at anything else, any other run ends at punctuation or white space.
pub open spec fn ends_run(first: char, c: char) -> bool {
    if ascii_punctuation(first) {
        !ascii_punctuation(c)
    } else {
        ascii_punctuation(c) || white_space(c)
    }
}

/// The first column at or after `i` that holds no white space, or the length
/// of `s`.
pub open spec fn skip_spaces(s: Seq<char>, i: int) -> int
    decreases s.len() - i,
{
    if 0 <= i < s.len() && white_space(s[i]) {
        skip_spaces(s, i + 1)
    } else {
        i
    }
}

/// The first column at or after `i` whose character ends the run that began
/// with `first`, or the length of `s`.
pub open spec fn run_end(s: Seq<char>, first: char, i: int) -> int
    decreases s.len() - i,
{
    if 0 <= i < s.len() && !ends_run(first, s[i]) {
        run_end(s, first, i + 1)
    } else {
        i
    }
}

/// The column at or before `i` that follows the last character before `i`
/// that is no white space, or 0.
pub open spec fn skip_spaces_back(s: Seq<char>, i: int) -> int
    decreases i,
{
    if 0 < i <= s.len() && white_space(s[i - 1]) {
        skip_spaces_back(s, i - 1)
    } else {
        i
    }
}

/// The column at or before `i` that follows the last character before `i`
/// that ends the run that began with `first`, or 0.
pub open spec fn run_start(s: Seq<char>, first: char, i: int) -> int
    decreases i,
{
    if 0 < i <= s.len() && !ends_run(first, s[i - 1]) {
        run_start(s, first, i - 1)
    } else {
        i
    }
}

/// Where the word at or after column `start` ends: white space from `start` on
/// is passed over, then the run found there; nothing if the line ends first.
pub open spec fn next_word_at(s: Seq<char>, start: int) -> Option<int> {
    let first = skip_spaces(s, start);
    if first >= s.len() {
        None
    } else {
        let end = run_end(s, s[first], first + 1);
        if end >= s.len() {
            None
        } else {
            Some(end)
        }
    }
}

/// Where the word before column `start` begins: white space before `start` is
/// passed over backwards, then the run found there; nothing if the start of
/// the line is reached first.
pub open spec fn previous_word_at(s: Seq<char>, start: int) -> Option<int> {
    let from = if start < s.len() {
        start
    } else {
        s.len() as int
    };
    let last = skip_spaces_back(s, from);
    if last <= 0 {
        None
    } else {
        let begin = run_start(s, s[last - 1], last - 1);
        if begin <= 0 {
            None
        } else {
            Some(begin)
        }
    }
}

/// A found word boundary lies strictly after the column that the scan began
/// at, and within the line.
pub proof fn lemma_next_word_bounds(s: Seq<char>, start: int)
    requires
        0 <= start,
    ensures
        next_word_at(s, start) matches Some(end) ==> start < end < s.len(),
{
    lemma_skip_spaces_bounds(s, start);
    let first = skip_spaces(s, start);
    if first < s.len() {
        lemma_run_end_bounds(s, s[first], first + 1);
    }
}

/// A word boundary found backwards lies strictly before the column that the
/// scan began at, and after the start of the line.
pub proof fn lemma_previous_word_bounds(s: Seq<char>, start: int)
    requires
        0 <= start,
    ensures
        previous_word_at(s, start) matches Some(begin) ==> 0 < begin < start && begin < s.len(),
{
    let from = if start < s.len() {
        start
    } else {
        s.len() as int
    };
    lemma_skip_spaces_back_bounds(s, from);
    let last = skip_spaces_back(s, from);
    if last > 0 {
        lemma_run_start_bounds(s, s[last - 1], last - 1);
    }
}

/// Passing over white space goes forward, and not past the end of the line.
proof fn lemma_skip_spaces_bounds(s: Seq<char>, i: int)
    ensures
        i <= skip_spaces(s, i),
        i <= s.len() ==> skip_spaces(s, i) <= s.len(),
    decreases s.len() - i,
{
    if 0 <= i < s.len() && white_space(s[i]) {
        lemma_skip_spaces_bounds(s, i + 1);
    }
}

/// The end of a run lies at or after where the scan began, within the line.
proof fn lemma_run_end_bounds(s: Seq<char>, first: char, i: int)
    ensures
        i <= run_end(s, first, i),
        i <= s.len() ==> run_end(s, first, i) <= s.len(),
    decreases s.len() - i,
{
    if 0 <= i < s.len() && !ends_run(first, s[i]) {
        lemma_run_end_bounds(s, first, i + 1);
    }
}

/// Passing over white space backwards goes back, and not past the start of
/// the line.
proof fn lemma_skip_spaces_back_bounds(s: Seq<char>, i: int)
    ensures
        skip_spaces_back(s, i) <= i,
        0 <= i ==> 0 <= skip_spaces_back(s, i),
    decreases i,
{
    if 0 < i <= s.len() && white_space(s[i - 1]) {
        lemma_skip_spaces_back_bounds(s, i - 1);
    }
}

/// The start of a run lies at or before where the scan began, within the
/// line.
proof fn lemma_run_start_bounds(s: Seq<char>, first: char, i: int)
    ensures
        run_start(s, first, i) <= i,
        0 <= i ==> 0 <= run_start(s, first, i),
    decreases i,
{
    if 0 < i <= s.len() && !ends_run(first, s[i - 1]) {
        lemma_run_start_bounds(s, first, i - 1);
    }
}

/// Whether `c` ends a run that began with `first`.
fn is_run_end(first: char, c: char) -> (b: bool)
    ensures
        b == ends_run(first, c),
{
    if first.is_ascii_punctuation() {
        !c.is_ascii_punctuation()
    } else {
        c.is_ascii_punctuation() || c.is_whitespace()
    }
}

/// Word-wise movement within a line of text.
pub trait Word {
    /// The text that is scanned.
    spec fn line(&self) -> Seq<char>;

    /// The column at which the word at or after column `start` ends, if the
    /// line goes on after it.
    fn next_word(&self, start: usize) -> (r: Option<usize>)
        ensures
            match r {
                Some(end) => next_word_at(self.line(), start as int) == Some(end as int),
                None => next_word_at(self.line(), start as int) is None,
            },
    ;

    /// The column at which the word before column `start` begins, if the line
    /// has anything before it.
    fn previous_word(&self, start: usize) -> (r: Option<usize>)
        ensures
            match r {
                Some(begin) => previous_word_at(self.line(), start as int) == Some(begin as int),
                None => previous_word_at(self.line(), start as int) is None,
            },
    ;
}

impl Word for str {
    open spec fn line(&self) -> Seq<char> {
        self@
    }

    fn next_word(&self, start: usize) -> (r: Option<usize>) {
        let chars = to_chars(self);
        let n = chars.len();
        let mut i: usize = start;
        while i < n && chars[i].is_whitespace()
            invariant
                start <= i,
                n == chars@.len(),
                skip_spaces(chars@, start as int) == skip_spaces(chars@, i as int),
            decreases n - i,
        {
            i = i + 1;
        }
        if i >= n {
            return None;
        }
        let first = chars[i];
        let mut k: usize = i + 1;
        while k < n && !is_run_end(first, chars[k])
            invariant
                i < k <= n,
                n == chars@.len(),
                run_end(chars@, first, i + 1) == run_end(chars@, first, k as int),
            decreases n - k,
        {
            k = k + 1;
        }
        if k >= n {
            None
        } else {
            Some(k)
        }
    }

    fn previous_word(&self, start: usize) -> (r: Option<usize>) {
        let chars = to_chars(self);
        let n = chars.len();
        let from = if start < n {
            start
        } else {
            n
        };
        let mut i: usize = from;
        while i > 0 && chars[i - 1].is_whitespace()
            invariant
                i <= from <= n,
                n == chars@.len(),
                skip_spaces_back(chars@, from as int) == skip_spaces_back(chars@, i as int),
            decreases i,
        {
            i = i - 1;
        }
        if i == 0 {
            return None;
        }
        let first = chars[i - 1];
        let mut k: usize = i - 1;
        while k > 0 && !is_run_end(first, chars[k - 1])
            invariant
                k < i <= n,
                n == chars@.len(),
                run_start(chars@, first, i - 1) == run_start(chars@, first, k as int),
            decreases k,
        {
            k = k - 1;
        }
        if k == 0 {
            None
        } else {
            Some(k)
        }
    }
}

} // verus!
