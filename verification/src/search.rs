//! Search patterns: regular expressions and where they match in a line.

use crate::text::{byte_len, byte_offset, char_index, col_at, on_boundary, ByteIndex};
use regex::Regex;
use vstd::prelude::*;

verus! {

/// A compiled regular expression of the crate `regex`.
#[verifier::external_type_specification]
#[verifier::external_body]
pub struct ExRegex(regex::Regex);

/// The error with which the crate `regex` refuses a pattern.
#[verifier::external_type_specification]
#[verifier::external_body]
pub struct ExRegexError(regex::Error);

/// Whether `Regex::new` accepts `text` as a pattern.
pub uninterp spec fn is_pattern(text: Seq<char>) -> bool;

/// What `Regex::find_at` returns for the pattern `pattern`, the haystack
/// `haystack` and the byte offset `start`: the byte offsets at which the
/// first match from `start` on begins and ends.
pub uninterp spec fn first_match(pattern: Seq<char>, haystack: Seq<char>, start: int) -> Option<
    (int, int),
>;

/// What `Regex::find_iter` yields for the pattern `pattern` and the haystack
/// `haystack`: the byte offsets at which each match begins and ends, one match
/// after the other.
pub uninterp spec fn all_matches(pattern: Seq<char>, haystack: Seq<char>) -> Seq<(int, int)>;

/// A search pattern: its text and the regular expression compiled from it.
/// A pattern is only ever made by compiling a text, so the expression that
/// it holds is the one that its text stands for.
pub struct Pattern {
    text: String,
    regex: Regex,
}

/// Why a text is no search pattern.
#[derive(Debug)]
pub struct PatternError {
    pub message: String,
}

impl View for Pattern {
    type V = Seq<char>;

    /// The text of the pattern.
    closed spec fn view(&self) -> Seq<char> {
        self.text@
    }
}

/// The byte span `span` lies within `haystack`, on character boundaries, and
/// does not end before it begins.
pub open spec fn span_in(haystack: Seq<char>, span: (int, int)) -> bool {
    &&& 0 <= span.0 <= span.1 <= byte_len(haystack)
    &&& on_boundary(haystack, span.0)
    &&& on_boundary(haystack, span.1)
}

/// The byte spans `spans` lie within `haystack` on character boundaries, in
/// order and without overlap.
pub open spec fn spans_in(haystack: Seq<char>, spans: Seq<(int, int)>) -> bool {
    &&& forall|i: int| 0 <= i < spans.len() ==> span_in(haystack, #[trigger] spans[i])
    &&& forall|i: int, j: int|
        0 <= i < j < spans.len() ==> (#[trigger] spans[i]).1 <= (#[trigger] spans[j]).0
}

/// The byte spans of a vector, as pairs of integers.
pub open spec fn spans_of(v: Seq<(usize, usize)>) -> Seq<(int, int)> {
    Seq::new(v.len(), |i: int| (v[i].0 as int, v[i].1 as int))
}

/// `Regex::new` compiles `text`. Whether it succeeds depends on the text
/// alone; the pattern that it gives keeps the text it was compiled from.
#[verifier::external_body]
fn compile(text: &str) -> (r: Result<Pattern, regex::Error>)
    ensures
        r is Ok <==> is_pattern(text@),
        r matches Ok(pattern) ==> pattern@ == text@,
{
    match Regex::new(text) {
        Ok(regex) => Ok(Pattern { text: text.to_string(), regex }),
        Err(error) => Err(error),
    }
}

/// The message of an error of `regex`, as its `Display` writes it.
#[verifier::external_body]
fn describe(error: &regex::Error) -> (message: String) {
    error.to_string()
}

/// `Regex::find_at`, called on the expression of `pattern`, searches
/// `haystack` from byte offset `start` on, which may not lie past its end.
/// What it finds depends on the text of the pattern, the haystack and the
/// offset alone. A match that it finds begins at or after `start` and lies
/// on character boundaries of `haystack`.
#[verifier::external_body]
fn find_at(pattern: &Pattern, haystack: &str, start: usize) -> (r: Option<(usize, usize)>)
    requires
        start <= byte_len(haystack@),
    ensures
        match r {
            Some(span) => first_match(pattern@, haystack@, start as int) == Some(
                (span.0 as int, span.1 as int),
            ),
            None => first_match(pattern@, haystack@, start as int) is None,
        },
        r matches Some(span) ==> start <= span.0 && span_in(
            haystack@,
            (span.0 as int, span.1 as int),
        ),
{
    pattern.regex.find_at(haystack, start).map(|m| (m.start(), m.end()))
}

/// `Regex::find_iter`, called on the expression of `pattern`, yields the
/// matches in `haystack` one after the other. What it yields depends on the
/// text of the pattern and the haystack alone. The matches lie on character
/// boundaries of `haystack` and do not overlap.
#[verifier::external_body]
fn find_all(pattern: &Pattern, haystack: &str) -> (r: Vec<(usize, usize)>)
    ensures
        spans_of(r@) == all_matches(pattern@, haystack@),
        spans_in(haystack@, spans_of(r@)),
{
    pattern.regex.find_iter(haystack).map(|m| (m.start(), m.end())).collect()
}

/// A byte span of `line` in character columns.
pub open spec fn columns(line: Seq<char>, span: (int, int)) -> (int, int) {
    (col_at(line, span.0), col_at(line, span.1))
}

/// The first match of `pattern` in `line` that begins at or after column
/// `from`, in character columns.
pub open spec fn match_from(pattern: Seq<char>, line: Seq<char>, from: int) -> Option<(int, int)> {
    match first_match(pattern, line, byte_offset(line, from) as int) {
        Some(span) => Some(columns(line, span)),
        None => None,
    }
}

/// The last match of `pattern` in `line`, in character columns.
pub open spec fn last_match(pattern: Seq<char>, line: Seq<char>) -> Option<(int, int)> {
    let spans = all_matches(pattern, line);
    if spans.len() == 0 {
        None
    } else {
        Some(columns(line, spans.last()))
    }
}

/// All matches of `pattern` in `line`, in character columns.
pub open spec fn column_spans(pattern: Seq<char>, line: Seq<char>) -> Seq<(int, int)> {
    let spans = all_matches(pattern, line);
    Seq::new(spans.len(), |i: int| columns(line, spans[i]))
}

/// The column spans `spans` lie within a line of `len` characters, in order
/// and without overlap.
pub open spec fn ordered_spans(spans: Seq<(int, int)>, len: int) -> bool {
    &&& forall|i: int| 0 <= i < spans.len() ==> 0 <= (#[trigger] spans[i]).0 <= spans[i].1 <= len
    &&& forall|i: int, j: int|
        0 <= i < j < spans.len() ==> (#[trigger] spans[i]).1 <= (#[trigger] spans[j]).0
}

/// Of two boundaries of a line the later byte offset is the later column.
proof fn lemma_columns_ordered(line: Seq<char>, a: int, b: int)
    requires
        on_boundary(line, a),
        on_boundary(line, b),
        a <= b,
    ensures
        0 <= col_at(line, a) <= col_at(line, b) <= line.len(),
{
    crate::text::lemma_col_at_boundary(line, a);
    crate::text::lemma_col_at_boundary(line, b);
    if col_at(line, b) < col_at(line, a) {
        crate::text::lemma_byte_offset_increasing(line, col_at(line, b), col_at(line, a));
    }
}

impl Pattern {
    /// Compiles `text` into a pattern, if it is one.
    pub fn new(text: &str) -> (r: Result<Pattern, PatternError>)
        ensures
            r is Ok <==> is_pattern(text@),
            r matches Ok(pattern) ==> pattern@ == text@,
    {
        match compile(text) {
            Ok(pattern) => Ok(pattern),
            Err(error) => Err(PatternError { message: describe(&error) }),
        }
    }

    /// The text of the pattern.
    pub fn as_str(&self) -> (r: &str)
        ensures
            r@ == self@,
    {
        self.text.as_str()
    }

    /// The first match in `line` that begins at or after column `from`, in
    /// character columns.
    pub fn find_from(&self, line: &str, from: usize) -> (r: Option<(usize, usize)>)
        ensures
            match r {
                Some(span) => match_from(self@, line@, from as int) == Some(
                    (span.0 as int, span.1 as int),
                ),
                None => match_from(self@, line@, from as int) is None,
            },
            r matches Some(span) ==> from <= span.0 <= span.1 <= line@.len() || (line@.len()
                < from && span.0 == span.1 == line@.len()),
    {
        let start = line.byte_index(from);
        proof {
            if from <= line@.len() {
                crate::text::lemma_byte_offset_split(line@, from as int);
            }
        }
        match find_at(self, line, start) {
            Some(span) => {
                let begin = char_index(line, span.0);
                let end = char_index(line, span.1);
                proof {
                    let a = span.0 as int;
                    let b = span.1 as int;
                    crate::text::lemma_col_at_boundary(line@, a);
                    crate::text::lemma_col_at_boundary(line@, b);
                    if end < begin {
                        crate::text::lemma_byte_offset_increasing(line@, end as int, begin as int);
                    }
                    if from <= line@.len() && begin < from {
                        crate::text::lemma_byte_offset_increasing(line@, begin as int, from as int);
                    }
                }
                Some((begin, end))
            },
            None => None,
        }
    }

    /// The last match in `line`, in character columns.
    pub fn find_last(&self, line: &str) -> (r: Option<(usize, usize)>)
        ensures
            match r {
                Some(span) => last_match(self@, line@) == Some((span.0 as int, span.1 as int)),
                None => last_match(self@, line@) is None,
            },
            r matches Some(span) ==> span.0 <= span.1 <= line@.len(),
    {
        let spans = find_all(self, line);
        let count = spans.len();
        if count == 0 {
            None
        } else {
            let span = spans[count - 1];
            assert(spans_of(spans@).last() == (span.0 as int, span.1 as int));
            assert(span_in(line@, spans_of(spans@)[count - 1]));
            let begin = char_index(line, span.0);
            let end = char_index(line, span.1);
            proof {
                crate::text::lemma_col_at_boundary(line@, span.0 as int);
                crate::text::lemma_col_at_boundary(line@, span.1 as int);
                if end < begin {
                    crate::text::lemma_byte_offset_increasing(line@, end as int, begin as int);
                }
            }
            Some((begin, end))
        }
    }

    /// All matches in `line`, one after the other, in character columns.
    pub fn find_spans(&self, line: &str) -> (r: Vec<(usize, usize)>)
        ensures
            spans_of(r@) == column_spans(self@, line@),
            ordered_spans(spans_of(r@), line@.len() as int),
    {
        let spans = find_all(self, line);
        let ghost bytes = spans_of(spans@);
        let mut r: Vec<(usize, usize)> = Vec::new();
        let mut i: usize = 0;
        while i < spans.len()
            invariant
                i <= spans.len(),
                bytes == spans_of(spans@),
                bytes == all_matches(self@, line@),
                spans_in(line@, bytes),
                r@.len() == i,
                forall|k: int|
                    0 <= k < i ==> (#[trigger] r@[k]).0 == col_at(line@, bytes[k].0) && r@[k].1
                        == col_at(line@, bytes[k].1),
            decreases spans.len() - i,
        {
            let span = spans[i];
            assert(bytes[i as int] == (span.0 as int, span.1 as int));
            assert(span_in(line@, bytes[i as int]));
            let begin = char_index(line, span.0);
            let end = char_index(line, span.1);
            r.push((begin, end));
            i = i + 1;
        }
        proof {
            assert(spans_of(r@) =~= column_spans(self@, line@));
            let cols = spans_of(r@);
            assert forall|k: int| 0 <= k < cols.len() implies 0 <= (#[trigger] cols[k]).0
                <= cols[k].1 <= line@.len() by {
                assert(span_in(line@, bytes[k]));
                lemma_columns_ordered(line@, bytes[k].0, bytes[k].1);
            }
            assert forall|k: int, j: int| 0 <= k < j < cols.len() implies (#[trigger] cols[k]).1
                <= (#[trigger] cols[j]).0 by {
                assert(span_in(line@, bytes[k]));
                assert(span_in(line@, bytes[j]));
                assert(bytes[k].1 <= bytes[j].0);
                lemma_columns_ordered(line@, bytes[k].1, bytes[j].0);
            }
        }
        r
    }
}

} // verus!
