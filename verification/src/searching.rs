//! Searching the buffer for a pattern, forward and backward from the cursor.

use crate::cursor::CursorPosition;
use crate::search::{is_pattern, last_match, match_from, Pattern, PatternError};
use crate::state::{in_text, TextState};
use crate::text::{char_count, same_text, text_of, CharSlice};
use crate::textarea::TextArea;
use vstd::prelude::*;

verus! {

/// A match on `row` from column `span.0` to column `span.1`, as two
/// positions.
pub open spec fn hit(row: int, span: (int, int)) -> (CursorPosition, CursorPosition) {
    (
        CursorPosition { row: row as usize, col: span.0 as usize },
        CursorPosition { row: row as usize, col: span.1 as usize },
    )
}

/// The first match of `pattern` on the first row from `from` up to, not
/// including, `to` that has one.
pub open spec fn first_hit(pattern: Seq<char>, text: Seq<Seq<char>>, from: int, to: int) -> Option<
    (CursorPosition, CursorPosition),
>
    decreases to - from,
{
    if from >= to {
        None
    } else {
        match match_from(pattern, text[from], 0) {
            Some(span) => Some(hit(from, span)),
            None => first_hit(pattern, text, from + 1, to),
        }
    }
}

/// The last match of `pattern` on the last row before `below` that has one.
pub open spec fn last_hit(pattern: Seq<char>, text: Seq<Seq<char>>, below: int) -> Option<
    (CursorPosition, CursorPosition),
>
    decreases below,
{
    if below <= 0 {
        None
    } else {
        match last_match(pattern, text[below - 1]) {
            Some(span) => Some(hit(below - 1, span)),
            None => last_hit(pattern, text, below - 1),
        }
    }
}

impl TextState {
    /// What a forward search finds: the first match that begins after the
    /// cursor's column on the cursor's row, or else the first match on the
    /// first later row that has one. The search does not go on at the top.
    pub open spec fn search_forward(self) -> Option<(CursorPosition, CursorPosition)> {
        match self.pattern {
            None => None,
            Some(pattern) => {
                let row = self.cursor.row as int;
                let here = if self.cursor.col < self.lines[row].len() {
                    match_from(pattern, self.lines[row], self.cursor.col + 1)
                } else {
                    None
                };
                match here {
                    Some(span) => Some(hit(row, span)),
                    None => first_hit(pattern, self.lines, row + 1, self.lines.len() as int),
                }
            },
        }
    }

    /// What a backward search finds: the last match within the text of the
    /// cursor's row before the cursor's column, or else the last match on the
    /// nearest earlier row that has one. The search does not go on at the
    /// bottom.
    pub open spec fn search_backward(self) -> Option<(CursorPosition, CursorPosition)> {
        match self.pattern {
            None => None,
            Some(pattern) => {
                let row = self.cursor.row as int;
                match last_match(pattern, self.lines[row].take(self.cursor.col as int)) {
                    Some(span) => Some(hit(row, span)),
                    None => last_hit(pattern, self.lines, row),
                }
            },
        }
    }
}

impl TextArea {
    /// Sets the pattern to search for. An empty text clears the pattern; the
    /// text of the pattern in use changes nothing; any other text is
    /// compiled. A text that is no pattern is refused, and the pattern in use
    /// stays.
    pub fn set_search_pattern(&mut self, pattern: &str) -> (r: Result<(), PatternError>)
        ensures
            r is Err <==> old(self)@.pattern != Some(pattern@) && pattern@.len() > 0
                && !is_pattern(pattern@),
            final(self)@ == if r is Err {
                old(self)@
            } else {
                TextState {
                    pattern: if old(self)@.pattern != Some(pattern@) && pattern@.len() == 0 {
                        None
                    } else {
                        Some(pattern@)
                    },
                    ..old(self)@
                }
            },
    {
        let unchanged = match &self.search_pattern {
            Some(current) => same_text(current.as_str(), pattern),
            None => false,
        };
        if unchanged {
            Ok(())
        } else if pattern.is_empty() {
            self.search_pattern = None;
            Ok(())
        } else {
            match Pattern::new(pattern) {
                Ok(compiled) => {
                    self.search_pattern = Some(compiled);
                    Ok(())
                },
                Err(error) => Err(error),
            }
        }
    }

    /// The text of the pattern in use.
    pub fn search_pattern(&self) -> (r: Option<&str>)
        ensures
            match r {
                Some(text) => self@.pattern == Some(text@),
                None => self@.pattern is None,
            },
    {
        match &self.search_pattern {
            Some(pattern) => Some(pattern.as_str()),
            None => None,
        }
    }

    /// Searches forward from the cursor. Returns the two ends of the match.
    #[verifier::loop_isolation(false)]
    pub fn search_forward(&self) -> (r: Option<(CursorPosition, CursorPosition)>)
        requires
            self@.wf(),
        ensures
            r == self@.search_forward(),
            r matches Some(ends) ==> {
                &&& ends.0.row == ends.1.row
                &&& ends.0.row >= self@.cursor.row
                &&& ends.0.row == self@.cursor.row ==> ends.0.col > self@.cursor.col
                &&& ends.0.before_or_at(ends.1)
                &&& in_text(self@.lines, ends.0) && in_text(self@.lines, ends.1)
            },
    {
        let pattern = match &self.search_pattern {
            Some(pattern) => pattern,
            None => {
                return None;
            },
        };
        let row = self.cursor.row;
        let line = self.lines[row].as_str();
        if self.cursor.col < char_count(line) {
            match pattern.find_from(line, self.cursor.col + 1) {
                Some(span) => {
                    return Some(
                        (
                            CursorPosition { row, col: span.0 },
                            CursorPosition { row, col: span.1 },
                        ),
                    );
                },
                None => {},
            }
        }
        let total = self.lines.len();
        let mut next: usize = row + 1;
        while next < total
            invariant
                row < next <= total,
                total == self.lines@.len(),
                first_hit(pattern@, text_of(self.lines@), row + 1, total as int) == first_hit(
                    pattern@,
                    text_of(self.lines@),
                    next as int,
                    total as int,
                ),
            decreases total - next,
        {
            match pattern.find_from(self.lines[next].as_str(), 0) {
                Some(span) => {
                    return Some(
                        (
                            CursorPosition { row: next, col: span.0 },
                            CursorPosition { row: next, col: span.1 },
                        ),
                    );
                },
                None => {},
            }
            next = next + 1;
        }
        None
    }

    /// Searches backward from the cursor. Returns the two ends of the match.
    #[verifier::loop_isolation(false)]
    pub fn search_backward(&self) -> (r: Option<(CursorPosition, CursorPosition)>)
        requires
            self@.wf(),
        ensures
            r == self@.search_backward(),
            r matches Some(ends) ==> {
                &&& ends.0.row == ends.1.row
                &&& ends.0.row <= self@.cursor.row
                &&& ends.0.row == self@.cursor.row ==> ends.1.col <= self@.cursor.col
                &&& ends.0.before_or_at(ends.1)
                &&& in_text(self@.lines, ends.0) && in_text(self@.lines, ends.1)
            },
    {
        let pattern = match &self.search_pattern {
            Some(pattern) => pattern,
            None => {
                return None;
            },
        };
        let row = self.cursor.row;
        let before = self.lines[row].as_str().char_slice(0, self.cursor.col);
        assert(before@ =~= text_of(self.lines@)[row as int].take(self.cursor.col as int));
        match pattern.find_last(before) {
            Some(span) => {
                return Some(
                    (CursorPosition { row, col: span.0 }, CursorPosition { row, col: span.1 }),
                );
            },
            None => {},
        }
        let mut below: usize = row;
        while below > 0
            invariant
                below <= row < self.lines@.len(),
                last_hit(pattern@, text_of(self.lines@), row as int) == last_hit(
                    pattern@,
                    text_of(self.lines@),
                    below as int,
                ),
            decreases below,
        {
            match pattern.find_last(self.lines[below - 1].as_str()) {
                Some(span) => {
                    return Some(
                        (
                            CursorPosition { row: below - 1, col: span.0 },
                            CursorPosition { row: below - 1, col: span.1 },
                        ),
                    );
                },
                None => {},
            }
            below = below - 1;
        }
        None
    }
}

} // verus!
