//! The selected text of a buffer.

use crate::cursor::CursorPosition;
use crate::state::{in_text, span_text, TextState};
use crate::text::{char_count, text_of, CharSlice};
use crate::textarea::TextArea;
use vstd::prelude::*;
use vstd::string::*;

verus! {

impl TextState {
    /// The two ends of the selection in order, the earlier first.
    pub open spec fn selection_ends(self) -> (CursorPosition, CursorPosition)
        recommends
            self.selection is Some,
    {
        let anchor = self.selection->0;
        (self.cursor.spec_min(anchor), self.cursor.spec_max(anchor))
    }

    /// The selected text, line by line, if there is a selection.
    pub open spec fn selected_text(self) -> Option<Seq<Seq<char>>> {
        if self.selection is Some {
            Some(span_text(self.lines, self.selection_ends().0, self.selection_ends().1))
        } else {
            None
        }
    }
}

impl TextArea {
    /// The selected text, line by line: of a selection within one row the
    /// characters between its two ends; of one over several rows the end of
    /// its first row, the rows between, and the start of its last row. With
    /// `unselect` the selection is dropped.
    pub fn selected_text(&mut self, unselect: bool) -> (r: Option<Vec<String>>)
        requires
            old(self)@.wf(),
        ensures
            match r {
                Some(text) => old(self)@.selected_text() == Some(text_of(text@)),
                None => old(self)@.selected_text() is None,
            },
            final(self)@ == if unselect {
                TextState { selection: None, ..old(self)@ }
            } else {
                old(self)@
            },
    {
        let anchor = match self.selection {
            Some(anchor) => anchor,
            None => {
                return None;
            },
        };
        if unselect {
            self.selection = None;
        }
        let (start, end) = CursorPosition::ordered(self.cursor, anchor);
        Some(self.text_between(start, end))
    }

    /// The text between `start` and `end`, line by line.
    pub fn text_between(&self, start: CursorPosition, end: CursorPosition) -> (text: Vec<String>)
        requires
            in_text(self@.lines, start),
            in_text(self@.lines, end),
            start.before_or_at(end),
        ensures
            text_of(text@) == span_text(self@.lines, start, end),
    {
        let ghost lines = text_of(self.lines@);
        let mut text: Vec<String> = Vec::new();
        if start.row == end.row {
            let part = self.lines[start.row].as_str().char_slice(start.col, end.col);
            text.push(part.to_owned());
            assert(text_of(text@) =~= span_text(lines, start, end));
            return text;
        }
        let width = char_count(self.lines[start.row].as_str());
        let first = self.lines[start.row].as_str().char_slice(start.col, width);
        text.push(first.to_owned());
        assert(first@ =~= lines[start.row as int].skip(start.col as int));
        assert(text_of(text@) =~= seq![lines[start.row as int].skip(start.col as int)]
            + lines.subrange(start.row + 1, start.row + 1));
        let mut row: usize = start.row + 1;
        while row < end.row
            invariant
                start.row < row <= end.row < self.lines@.len(),
                lines == text_of(self.lines@),
                text_of(text@) == seq![lines[start.row as int].skip(start.col as int)]
                    + lines.subrange(start.row + 1, row as int),
            decreases end.row - row,
        {
            let ghost before = text_of(text@);
            text.push(self.lines[row].clone());
            assert(text_of(text@) =~= before.push(lines[row as int]));
            row = row + 1;
            assert(text_of(text@) =~= seq![lines[start.row as int].skip(start.col as int)]
                + lines.subrange(start.row + 1, row as int));
        }
        let ghost before = text_of(text@);
        let last = self.lines[end.row].as_str().char_slice(0, end.col);
        text.push(last.to_owned());
        assert(text_of(text@) =~= before.push(lines[end.row as int].take(end.col as int)));
        assert(text_of(text@) =~= span_text(lines, start, end));
        text
    }

    /// The selected text, where the selection lies within one row.
    pub fn selected_text_single_line(&self) -> (r: Option<&str>)
        requires
            self@.wf(),
        ensures
            match r {
                Some(text) => {
                    &&& self@.selection matches Some(anchor)
                    &&& anchor.row == self@.cursor.row
                    &&& self@.selected_text() == Some(seq![text@])
                },
                None => self@.selection matches Some(anchor) ==> anchor.row != self@.cursor.row,
            },
    {
        match self.selection {
            Some(anchor) => {
                if anchor.row != self.cursor.row {
                    return None;
                }
                let (start, end) = CursorPosition::ordered(self.cursor, anchor);
                Some(self.lines[start.row].as_str().char_slice(start.col, end.col))
            },
            None => None,
        }
    }
}

} // verus!
