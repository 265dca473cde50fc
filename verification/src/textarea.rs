//! The text buffer: lines, cursor, selection and the history of edits.

use crate::cursor::CursorPosition;
use crate::history::HistoryAction;
use crate::indent::Indent;
use crate::search::Pattern;
use crate::state::{entries_of, in_text, TextState};
use crate::text::{char_count, text_of};
use crate::viewport::Viewport;
use vstd::prelude::*;

verus! {

/// A text buffer with its cursor, its selection and its history.
pub struct TextArea {
    pub(crate) lines: Vec<String>,
    pub(crate) cursor: CursorPosition,
    pub(crate) selection: Option<CursorPosition>,
    pub(crate) viewport: Viewport,
    pub(crate) undo_history: Vec<(HistoryAction, bool)>,
    pub(crate) redo_history: Vec<(HistoryAction, bool)>,
    pub(crate) clipboard: Option<String>,
    pub(crate) search_pattern: Option<Pattern>,
    pub(crate) indent: Indent,
    pub(crate) line_numbers: bool,
}

/// The text of an optional string.
pub open spec fn text_of_option(s: Option<String>) -> Option<Seq<char>> {
    match s {
        Some(s) => Some(s@),
        None => None,
    }
}

/// The text of an optional pattern.
pub open spec fn text_of_pattern(p: Option<Pattern>) -> Option<Seq<char>> {
    match p {
        Some(p) => Some(p@),
        None => None,
    }
}

impl View for TextArea {
    type V = TextState;

    open(crate) spec fn view(&self) -> TextState {
        TextState {
            lines: text_of(self.lines@),
            cursor: self.cursor,
            selection: self.selection,
            undo: entries_of(self.undo_history@),
            redo: entries_of(self.redo_history@),
            clipboard: text_of_option(self.clipboard),
            pattern: text_of_pattern(self.search_pattern),
            indent: self.indent,
            line_numbers: self.line_numbers,
            viewport: self.viewport,
        }
    }
}

impl TextArea {
    /// A buffer that holds `lines`, with the cursor at the start, no
    /// selection, no history, line numbers shown, and `indent` as its
    /// indentation. Without any line the buffer holds one empty line.
    pub fn new(lines: Vec<String>, indent: Indent) -> (r: TextArea)
        requires
            indent.wf(),
        ensures
            r@.wf(),
            r@.lines == if lines@.len() == 0 {
                seq![Seq::<char>::empty()]
            } else {
                text_of(lines@)
            },
            r@.cursor == (CursorPosition { row: 0, col: 0 }),
            r@.selection is None,
            r@.undo.len() == 0,
            r@.redo.len() == 0,
            r@.clipboard is None,
            r@.pattern is None,
            r@.indent == indent,
            r@.line_numbers,
            r@.viewport.origin() == (CursorPosition { row: 0, col: 0 }),
            r@.viewport.size() == (0usize, 0usize),
    {
        let mut lines = lines;
        if lines.len() == 0 {
            lines.push(String::new());
            assert(text_of(lines@) =~= seq![Seq::<char>::empty()]);
        }
        TextArea {
            lines,
            cursor: CursorPosition { row: 0, col: 0 },
            selection: None,
            viewport: Viewport::default(),
            undo_history: Vec::new(),
            redo_history: Vec::new(),
            clipboard: None,
            search_pattern: None,
            indent,
            line_numbers: true,
        }
    }

    /// The lines of the buffer.
    pub fn lines(&self) -> (r: &Vec<String>)
        ensures
            text_of(r@) == self@.lines,
    {
        &self.lines
    }

    /// The position of the cursor.
    pub fn cursor(&self) -> (r: CursorPosition)
        ensures
            r == self@.cursor,
    {
        self.cursor
    }

    /// The other end of the selection, if there is one.
    pub fn selection(&self) -> (r: Option<CursorPosition>)
        ensures
            r == self@.selection,
    {
        self.selection
    }

    /// The indentation of the buffer.
    pub fn indent(&self) -> (r: &Indent)
        ensures
            *r == self@.indent,
    {
        &self.indent
    }

    /// Sets the indentation of the buffer.
    pub fn set_indent(&mut self, indent: Indent)
        requires
            indent.wf(),
        ensures
            final(self)@ == (TextState { indent, ..old(self)@ }),
            old(self)@.wf() ==> final(self)@.wf(),
    {
        self.indent = indent;
    }

    /// Whether line numbers are shown.
    pub fn line_numbers(&self) -> (r: bool)
        ensures
            r == self@.line_numbers,
    {
        self.line_numbers
    }

    /// Sets whether line numbers are shown.
    pub fn set_line_numbers(&mut self, line_numbers: bool)
        ensures
            final(self)@ == (TextState { line_numbers, ..old(self)@ }),
    {
        self.line_numbers = line_numbers;
    }

    /// The text last copied or cut, if any.
    pub fn clipboard(&self) -> (r: Option<&String>)
        ensures
            match r {
                Some(text) => self@.clipboard == Some(text@),
                None => self@.clipboard is None,
            },
    {
        self.clipboard.as_ref()
    }

    /// Sets the text that a paste inserts; with nothing, a paste does
    /// nothing.
    pub fn set_clipboard(&mut self, text: Option<String>)
        ensures
            final(self)@ == (TextState { clipboard: text_of_option(text), ..old(self)@ }),
    {
        self.clipboard = text;
    }

    /// Whether `position` names a row of the buffer and a column within that
    /// row or at its end.
    pub fn is_cursor_valid(&self, position: CursorPosition) -> (r: bool)
        ensures
            r == in_text(self@.lines, position),
    {
        position.row < self.lines.len() && position.col <= char_count(
            self.lines[position.row].as_str(),
        )
    }

    /// Moves the cursor to `cursor`. With `shift` a selection is kept, or
    /// begun at the old cursor; without it the selection is dropped. A
    /// position outside the text is ignored.
    pub fn set_cursor(&mut self, cursor: CursorPosition, shift: bool)
        ensures
            final(self)@ == old(self)@.moved(cursor, shift),
    {
        if self.is_cursor_valid(cursor) {
            if !shift {
                self.selection = None;
            } else if self.selection.is_none() {
                self.selection = Some(self.cursor);
            }
            self.cursor = cursor;
        }
    }

    /// Sets the other end of the selection, or drops the selection. A
    /// position outside the text is ignored.
    pub fn set_selection(&mut self, selection: Option<CursorPosition>)
        ensures
            final(self)@ == old(self)@.selected(selection),
    {
        match selection {
            Some(anchor) => {
                if self.is_cursor_valid(anchor) {
                    self.selection = selection;
                }
            },
            None => {
                self.selection = None;
            },
        }
    }
}

// The history of edits.
impl TextArea {
    /// Applies `action` and records it as the start of a new logical edit.
    /// What could be redone is forgotten. Returns the cursor that the action
    /// records for the state after it; the cursor of the buffer stays.
    pub fn do_action(&mut self, history_action: HistoryAction) -> (cursor: CursorPosition)
        requires
            old(self)@.consistent(),
            history_action@.reversible(old(self)@.lines),
        ensures
            final(self)@ == old(self)@.did(history_action@, false),
            final(self)@.consistent(),
            cursor == history_action@.cursor_after(),
    {
        self.record(history_action, false)
    }

    /// Applies `action` and records it as a continuation of the logical edit
    /// that the last recorded action belongs to. Returns the cursor that the
    /// action records for the state after it; the cursor of the buffer stays.
    pub fn do_action_chain(&mut self, history_action: HistoryAction) -> (cursor: CursorPosition)
        requires
            old(self)@.consistent(),
            history_action@.reversible(old(self)@.lines),
        ensures
            final(self)@ == old(self)@.did(history_action@, true),
            final(self)@.consistent(),
            cursor == history_action@.cursor_after(),
    {
        self.record(history_action, true)
    }

    /// Applies `action` and puts it on the undo stack with the flag `chain`.
    pub(crate) fn record(&mut self, action: HistoryAction, chain: bool) -> (cursor: CursorPosition)
        requires
            old(self)@.consistent(),
            action@.reversible(old(self)@.lines),
        ensures
            final(self)@ == old(self)@.did(action@, chain),
            final(self)@.consistent(),
            cursor == action@.cursor_after(),
    {
        proof {
            self@.lemma_did_consistent(action@, chain);
        }
        let ghost before = self@;
        self.redo_history.clear();
        let cursor = action.apply(&mut self.lines);
        self.undo_history.push((action, chain));
        proof {
            assert(self@.undo =~= before.undo.push((action@, chain)));
            assert(self@.redo =~= Seq::empty());
        }
        cursor
    }

    /// Takes back the last logical edit: the entries of the undo stack from
    /// the top down to and including the first that begins a logical edit.
    /// Returns the cursor recorded before the edit, or nothing where there is
    /// nothing to undo; the cursor of the buffer stays.
    pub fn undo_action(&mut self) -> (cursor: Option<CursorPosition>)
        requires
            old(self)@.consistent(),
        ensures
            final(self)@ == old(self)@.undone(),
            final(self)@.consistent(),
            cursor == old(self)@.undo_cursor(),
            cursor is None <==> old(self)@.undo.len() == 0,
    {
        let mut result: Option<CursorPosition> = None;
        loop
            invariant_except_break
                self@.consistent(),
                self@.undone() == old(self)@.undone(),
                result is None ==> self@ == old(self)@,
                result is Some ==> old(self)@.undo.len() > 0,
                result is Some && self@.undo.len() > 0 ==> old(self)@.undo_cursor()
                    == self@.undo_cursor(),
                result is Some && self@.undo.len() == 0 ==> old(self)@.undo_cursor() == result,
            ensures
                self@ == old(self)@.undone(),
                self@.consistent(),
                result == old(self)@.undo_cursor(),
                result is None <==> old(self)@.undo.len() == 0,
            decreases self@.undo.len(),
        {
            let ghost now = self@;
            match self.undo_history.pop() {
                None => {
                    break;
                },
                Some((action, chain)) => {
                    proof {
                        now.lemma_undone_one_consistent();
                        assert(now.undo.last() == (action@, chain));
                    }
                    let inverse = action.invert();
                    let cursor = inverse.apply(&mut self.lines);
                    self.redo_history.push((inverse, chain));
                    proof {
                        action@.lemma_invert_twice();
                        assert(self@.undo =~= now.undo.drop_last());
                        assert(self@.redo =~= now.redo.push((inverse@, chain)));
                        assert(self@ == now.undone_one());
                    }
                    result = Some(cursor);
                    if !chain {
                        break;
                    }
                },
            }
        }
        result
    }

    /// Does the last undone logical edit again: the top entry of the redo
    /// stack, and after it each entry that continues the same logical edit.
    /// Returns the cursor recorded after the edit, or nothing where there is
    /// nothing to redo; the cursor of the buffer stays.
    pub fn redo_action(&mut self) -> (cursor: Option<CursorPosition>)
        requires
            old(self)@.consistent(),
        ensures
            final(self)@ == old(self)@.redone(),
            final(self)@.consistent(),
            cursor == old(self)@.redo_cursor(),
            cursor is None <==> old(self)@.redo.len() == 0,
    {
        if self.redo_history.len() == 0 {
            return None;
        }
        let mut result = self.redo_one();
        loop
            invariant_except_break
                self@.consistent(),
                old(self)@.redo.len() > 0,
                old(self)@.redone() == if self@.redo.len() > 0 && self@.redo.last().1 {
                    self@.redone()
                } else {
                    self@
                },
                old(self)@.redo_cursor() == if self@.redo.len() > 0 && self@.redo.last().1 {
                    self@.redo_cursor()
                } else {
                    Some(result)
                },
            ensures
                self@ == old(self)@.redone(),
                self@.consistent(),
                old(self)@.redo_cursor() == Some(result),
            decreases self@.redo.len(),
        {
            let n = self.redo_history.len();
            if n == 0 {
                break;
            }
            let chain = self.redo_history[n - 1].1;
            assert(self@.redo.last().1 == chain);
            if !chain {
                break;
            }
            result = self.redo_one();
        }
        Some(result)
    }

    /// Does the top entry of the redo stack again.
    fn redo_one(&mut self) -> (cursor: CursorPosition)
        requires
            old(self)@.consistent(),
            old(self)@.redo.len() > 0,
        ensures
            final(self)@ == old(self)@.redone_one(),
            final(self)@.consistent(),
            cursor == old(self)@.redo.last().0.cursor_before(),
    {
        let ghost now = self@;
        proof {
            now.lemma_redone_one_consistent();
        }
        let (inverse, chain) = self.redo_history.pop().unwrap();
        assert(now.redo.last() == (inverse@, chain));
        let action = inverse.invert();
        let cursor = action.apply(&mut self.lines);
        self.undo_history.push((action, chain));
        proof {
            inverse@.lemma_invert_twice();
            assert(self@.redo =~= now.redo.drop_last());
            assert(self@.undo =~= now.undo.push((action@, chain)));
        }
        cursor
    }
}

} // verus!
