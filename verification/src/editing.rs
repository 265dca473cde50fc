//! Commands that change the text: typing, removing, the clipboard, undo and
//! redo.

use crate::clipboard::{join_text, joined, split_lines, split_text};
use crate::cursor::CursorPosition;
use crate::history::{splice, ActionView};
use crate::moves::clamped;
use crate::state::{
    in_text, insert_char, insertion, join_lines, lemma_with_block, remove_char, removal,
    with_block, without_span, TextState,
};
use crate::text::{char_count, text_of};
use crate::textarea::TextArea;
use vstd::prelude::*;

verus! {

/// The position `cursor` where it lies in `text`; else the nearest row of
/// `text` at the same column, or at the end of that row.
pub open spec fn settled(text: Seq<Seq<char>>, cursor: CursorPosition) -> CursorPosition {
    if in_text(text, cursor) {
        cursor
    } else {
        clamped(
            text,
            if cursor.row < text.len() {
                cursor.row as int
            } else {
                text.len() - 1
            },
            cursor.col as int,
        )
    }
}

/// The position one column to the right of `at`.
pub open spec fn right_of(at: CursorPosition) -> CursorPosition {
    CursorPosition { row: at.row, col: (at.col + 1) as usize }
}

impl TextState {
    /// The state with the cursor at `cursor` and without a selection.
    pub open spec fn placed(self, cursor: CursorPosition) -> TextState {
        TextState { cursor, selection: None, ..self }
    }

    /// `text` without what lies between `start` and `end`, where `end` lies
    /// on the row of `start` or at the start of the row below it: on one row
    /// the characters between the two columns go, else the line break
    /// between the two rows goes. Of a selection all that lies between its
    /// ends goes.
    pub open spec fn text_without(self, start: CursorPosition, end: CursorPosition) -> Seq<
        Seq<char>,
    > {
        if self.selection is Some || start.row == end.row {
            without_span(self.lines, start, end)
        } else {
            splice(
                self.lines,
                start.row as int,
                2,
                seq![self.lines[start.row as int] + self.lines[start.row + 1]],
            )
        }
    }

    /// The action that the removal of what lies between `start` and `end` is
    /// recorded as: the removal of lines for a selection and for a word,
    /// that of a character for one character, that of a line break where the
    /// two lie on different rows. `to` is where the cursor goes.
    pub open spec fn removal_record(
        self,
        start: CursorPosition,
        end: CursorPosition,
        to: CursorPosition,
        word: bool,
    ) -> ActionView {
        if self.selection is Some || (start.row == end.row && word) {
            removal(self.lines, start, end, (self.cursor, to))
        } else if start.row == end.row {
            remove_char(self.lines, start, (self.cursor, to))
        } else {
            join_lines(self.lines, start.row, (self.cursor, to))
        }
    }

    /// The state after what lies between `start` and `end` has been removed
    /// and the cursor has gone to `to`. Without a selection, and with
    /// nothing between the two, nothing changes.
    pub open spec fn removed(
        self,
        start: CursorPosition,
        end: CursorPosition,
        to: CursorPosition,
        word: bool,
    ) -> TextState {
        if self.selection is None && start == end {
            self
        } else {
            self.edited(
                self.text_without(start, end),
                self.removal_record(start, end, to, word),
                false,
            ).placed(to)
        }
    }

    /// Where what backspace and delete remove begins, unless backspace goes
    /// back from there: at the earlier end of the selection, or at the cursor.
    pub open spec fn removal_start(self) -> CursorPosition {
        if self.selection is Some {
            self.selection_ends().0
        } else {
            self.cursor
        }
    }

    /// Where what backspace and delete remove ends, unless delete goes on
    /// from there: at the later end of the selection, or at the cursor.
    pub open spec fn removal_end(self) -> CursorPosition {
        if self.selection is Some {
            self.selection_ends().1
        } else {
            self.cursor
        }
    }

    /// Where what backspace removes begins: at the earlier end of the
    /// selection; else, with `ctrl`, where the word before the cursor
    /// begins; else one character before the cursor, or at the end of the
    /// row above it.
    pub open spec fn backspace_start(self, ctrl: bool) -> CursorPosition {
        let cursor = self.cursor;
        if self.selection is Some {
            self.selection_ends().0
        } else if ctrl {
            self.word_left_target()
        } else if cursor.col > 0 {
            CursorPosition { row: cursor.row, col: (cursor.col - 1) as usize }
        } else if cursor.row > 0 {
            CursorPosition {
                row: (cursor.row - 1) as usize,
                col: self.lines[cursor.row - 1].len() as usize,
            }
        } else {
            cursor
        }
    }

    /// Where what delete removes ends: at the later end of the selection;
    /// else, with `ctrl`, where the word after the cursor ends; else one
    /// character after the cursor, or at the start of the row below it.
    pub open spec fn delete_end(self, ctrl: bool) -> CursorPosition {
        let cursor = self.cursor;
        if self.selection is Some {
            self.selection_ends().1
        } else if ctrl {
            self.word_right_target()
        } else if cursor.col < self.lines[cursor.row as int].len() {
            CursorPosition { row: cursor.row, col: (cursor.col + 1) as usize }
        } else if cursor.row + 1 < self.lines.len() {
            CursorPosition { row: (cursor.row + 1) as usize, col: 0 }
        } else {
            cursor
        }
    }

    /// Whether backspace removes anything: there is a selection, or
    /// something before the cursor to go back to.
    pub open spec fn backspace_edits(self, ctrl: bool) -> bool {
        self.selection is Some || self.backspace_start(ctrl) != self.cursor
    }

    /// Whether delete removes anything: there is a selection, or something
    /// after the cursor to go on to.
    pub open spec fn delete_edits(self, ctrl: bool) -> bool {
        self.selection is Some || self.delete_end(ctrl) != self.cursor
    }

    /// The state after the selected text has been removed: the cursor stands
    /// where the selection began, and nothing is selected.
    pub open spec fn selection_removed(self) -> TextState
        recommends
            self.selection is Some,
    {
        self.removed(self.removal_start(), self.removal_end(), self.removal_start(), false)
    }

    /// The action that removing the selection is recorded as.
    pub open spec fn selection_removal(self) -> ActionView {
        self.removal_record(self.removal_start(), self.removal_end(), self.removal_start(), false)
    }

    /// The state from which an edit that replaces the selection goes on: the
    /// selection removed, if there is one.
    pub open spec fn cleared(self) -> TextState {
        if self.selection is Some {
            self.selection_removed()
        } else {
            self
        }
    }

    /// The state after `ch` has been typed: it replaces the selection, if
    /// there is one, as one logical edit, and the cursor follows it.
    pub open spec fn typed(self, ch: char) -> TextState {
        let base = self.cleared();
        let at = base.cursor;
        base.edited(
            base.lines.update(at.row as int, base.lines[at.row as int].insert(at.col as int, ch)),
            insert_char(base.lines, at, ch, (at, right_of(at))),
            self.selection is Some,
        ).placed(right_of(at))
    }

    /// The state after backspace: the selection is removed, if there is one;
    /// else, with `ctrl`, the word before the cursor; else the character
    /// before the cursor, or the line break before it at the start of a row.
    /// The cursor goes to where what was removed began.
    pub open spec fn backspaced(self, ctrl: bool) -> TextState {
        self.removed(
            self.backspace_start(ctrl),
            self.removal_end(),
            self.backspace_start(ctrl),
            ctrl,
        )
    }

    /// The state after delete: the selection is removed, if there is one;
    /// else, with `ctrl`, the word after the cursor; else the character at
    /// the cursor, or the line break after it at the end of a row. The cursor
    /// stays where what was removed began.
    pub open spec fn deleted(self, ctrl: bool) -> TextState {
        self.removed(self.removal_start(), self.delete_end(ctrl), self.removal_start(), ctrl)
    }

    /// The state after the selected text has been copied.
    pub open spec fn copied(self) -> TextState {
        match self.selected_text() {
            Some(text) => TextState { clipboard: Some(joined(text)), ..self },
            None => self,
        }
    }

    /// The state after the selected text has been cut.
    pub open spec fn cut(self) -> TextState {
        if self.selection is Some {
            self.copied().selection_removed()
        } else {
            self
        }
    }

    /// Where the cursor stands after `block` has been inserted at `at`: at
    /// the end of what was inserted.
    pub open spec fn block_end(at: CursorPosition, block: Seq<Seq<char>>) -> CursorPosition {
        if block.len() > 1 {
            CursorPosition {
                row: (at.row + block.len() - 1) as usize,
                col: block.last().len() as usize,
            }
        } else {
            CursorPosition { row: at.row, col: (at.col + block[0].len()) as usize }
        }
    }

    /// Whether there is text on the clipboard whose last line would stand
    /// on a row that `usize` can still number.
    pub open spec fn can_paste(self) -> bool {
        self.clipboard matches Some(text) && self.removal_start().row + split_lines(text).len()
            - 1 <= usize::MAX
    }

    /// The state after the text on the clipboard has been pasted: its lines
    /// replace the selection, if there is one, as one logical edit, and the
    /// cursor follows them. Nothing changes where nothing can be pasted.
    pub open spec fn pasted(self) -> TextState {
        if self.can_paste() {
            let block = split_lines(self.clipboard->0);
            let base = self.cleared();
            let at = base.cursor;
            base.edited(
                with_block(base.lines, at, block),
                insertion(base.lines, at, block, (at, Self::block_end(at, block))),
                self.selection is Some,
            ).placed(Self::block_end(at, block))
        } else {
            self
        }
    }

    /// The state after the undo command: the last logical edit taken back,
    /// the cursor where it stood before that edit, nothing selected.
    pub open spec fn undo_done(self) -> TextState {
        match self.undo_cursor() {
            Some(cursor) => self.undone().placed(settled(self.undone().lines, cursor)),
            None => self,
        }
    }

    /// The state after the redo command: the last undone logical edit done
    /// again, the cursor where it stood after that edit, nothing selected.
    pub open spec fn redo_done(self) -> TextState {
        match self.redo_cursor() {
            Some(cursor) => self.redone().placed(settled(self.redone().lines, cursor)),
            None => self,
        }
    }
}

impl TextArea {
    /// Puts the cursor at `cursor`, or at the nearest place in the text, and
    /// drops the selection.
    pub(crate) fn settle(&mut self, cursor: CursorPosition)
        requires
            old(self)@.consistent(),
            old(self)@.indent.wf(),
        ensures
            final(self)@ == old(self)@.placed(settled(old(self)@.lines, cursor)),
            final(self)@.wf(),
    {
        let row = if cursor.row < self.lines.len() {
            cursor.row
        } else {
            self.lines.len() - 1
        };
        let width = char_count(self.lines[row].as_str());
        let col = if cursor.col < width {
            cursor.col
        } else {
            width
        };
        self.cursor = CursorPosition { row, col };
        self.selection = None;
    }

    /// Removes the selected text.
    pub(crate) fn remove_selection(&mut self)
        requires
            old(self)@.wf(),
            old(self)@.selection is Some,
        ensures
            final(self)@ == old(self)@.selection_removed(),
            final(self)@.wf(),
            final(self)@.made_by(old(self)@, seq![old(self)@.selection_removal()]),
    {
        let anchor = self.selection.unwrap();
        let (start, end) = CursorPosition::ordered(self.cursor, anchor);
        self.edit_remove_span(start, end, (self.cursor, start), false);
        proof {
            self@.lemma_made_by_first(old(self)@, old(self)@.selection_removal());
        }
        self.cursor = start;
        self.selection = None;
    }

    /// Removes the selected text, if there is any.
    pub(crate) fn clear_selection(&mut self) -> (had: bool)
        requires
            old(self)@.wf(),
        ensures
            final(self)@ == old(self)@.cleared(),
            final(self)@.wf(),
            final(self)@.selection is None,
            had == (old(self)@.selection is Some),
            had ==> final(self)@.made_by(old(self)@, seq![old(self)@.selection_removal()]),
    {
        if self.selection.is_some() {
            self.remove_selection();
            true
        } else {
            false
        }
    }

    /// Types `ch` at the cursor, in place of the selection if there is one.
    pub fn type_char(&mut self, ch: char)
        requires
            old(self)@.wf(),
        ensures
            final(self)@ == old(self)@.typed(ch),
            final(self)@.wf(),
            final(self)@.is_one_edit_of(old(self)@),
    {
        let chain = self.clear_selection();
        let ghost base = self@;
        let at = self.cursor;
        let _ = self.byte_position(at);
        let after = CursorPosition { row: at.row, col: at.col + 1 };
        self.edit_insert_char(at, ch, (at, after), chain);
        self.cursor = after;
        proof {
            let action = insert_char(base.lines, at, ch, (at, after));
            if chain {
                let first = seq![old(self)@.selection_removal()];
                self@.lemma_made_by_next(old(self)@, base, first, action);
                self@.lemma_one_edit(old(self)@, first.push(action));
            } else {
                self@.lemma_made_by_first(old(self)@, action);
                self@.lemma_one_edit(old(self)@, seq![action]);
            }
        }
    }

    /// Removes the text from `target` to the cursor.
    fn remove_back_to(&mut self, target: CursorPosition)
        requires
            old(self)@.wf(),
            old(self)@.selection is None,
            in_text(old(self)@.lines, target),
            target.before_or_at(old(self)@.cursor),
            target.row == old(self)@.cursor.row || target.row + 1 == old(self)@.cursor.row,
        ensures
            final(self)@ == old(self)@.removed(target, old(self)@.cursor, target, true),
            final(self)@.wf(),
            target != old(self)@.cursor ==> final(self)@.is_one_edit_of(old(self)@),
    {
        let cursor = self.cursor;
        if target.row == cursor.row && target.col == cursor.col {
        } else if target.row == cursor.row {
            self.edit_remove_span(target, cursor, (cursor, target), false);
            self.cursor = target;
            proof {
                let action = removal(old(self)@.lines, target, cursor, (cursor, target));
                self@.lemma_made_by_first(old(self)@, action);
                self@.lemma_one_edit(old(self)@, seq![action]);
            }
        } else {
            self.edit_join_lines(target.row, (cursor, target), false);
            self.cursor = target;
            proof {
                let action = join_lines(old(self)@.lines, target.row, (cursor, target));
                self@.lemma_made_by_first(old(self)@, action);
                self@.lemma_one_edit(old(self)@, seq![action]);
            }
        }
    }

    /// Removes the text from the cursor to `target`.
    fn remove_forward_to(&mut self, target: CursorPosition)
        requires
            old(self)@.wf(),
            old(self)@.selection is None,
            in_text(old(self)@.lines, target),
            old(self)@.cursor.before_or_at(target),
            target.row == old(self)@.cursor.row || target.row == old(self)@.cursor.row + 1,
        ensures
            final(self)@ == old(self)@.removed(
                old(self)@.cursor,
                target,
                old(self)@.cursor,
                true,
            ),
            final(self)@.wf(),
            target != old(self)@.cursor ==> final(self)@.is_one_edit_of(old(self)@),
    {
        let cursor = self.cursor;
        if target.row == cursor.row && target.col == cursor.col {
        } else if target.row == cursor.row {
            self.edit_remove_span(cursor, target, (cursor, cursor), false);
            proof {
                let action = removal(old(self)@.lines, cursor, target, (cursor, cursor));
                self@.lemma_made_by_first(old(self)@, action);
                self@.lemma_one_edit(old(self)@, seq![action]);
            }
        } else {
            self.edit_join_lines(cursor.row, (cursor, cursor), false);
            proof {
                let action = join_lines(old(self)@.lines, cursor.row, (cursor, cursor));
                self@.lemma_made_by_first(old(self)@, action);
                self@.lemma_one_edit(old(self)@, seq![action]);
            }
        }
    }

    /// Backspace. Returns whether the key was taken as an edit.
    pub fn backspace(&mut self, ctrl: bool) -> (changed: bool)
        requires
            old(self)@.wf(),
        ensures
            final(self)@ == old(self)@.backspaced(ctrl),
            final(self)@.wf(),
            changed == (old(self)@.selection is Some || ctrl || old(self)@.cursor != (
                CursorPosition { row: 0, col: 0 })),
            old(self)@.backspace_edits(ctrl) ==> final(self)@.is_one_edit_of(old(self)@),
    {
        let cursor = self.cursor;
        if self.selection.is_some() {
            self.remove_selection();
            proof {
                self@.lemma_one_edit(old(self)@, seq![old(self)@.selection_removal()]);
            }
            true
        } else if ctrl {
            let target = self.word_left();
            self.remove_back_to(target);
            true
        } else if cursor.col > 0 {
            let at = CursorPosition { row: cursor.row, col: cursor.col - 1 };
            self.edit_remove_char(at, (cursor, at), false);
            self.cursor = at;
            proof {
                let line = old(self)@.lines[cursor.row as int];
                assert(line.remove(at.col as int) =~= line.take(at.col as int) + line.skip(
                    cursor.col as int,
                ));
                assert(self@.lines =~= without_span(old(self)@.lines, at, cursor));
                let action = remove_char(old(self)@.lines, at, (cursor, at));
                self@.lemma_made_by_first(old(self)@, action);
                self@.lemma_one_edit(old(self)@, seq![action]);
            }
            true
        } else if cursor.row > 0 {
            let target = CursorPosition {
                row: cursor.row - 1,
                col: char_count(self.lines[cursor.row - 1].as_str()),
            };
            self.remove_back_to(target);
            true
        } else {
            false
        }
    }

    /// Delete. Returns whether the key was taken as an edit.
    pub fn delete(&mut self, ctrl: bool) -> (changed: bool)
        requires
            old(self)@.wf(),
        ensures
            final(self)@ == old(self)@.deleted(ctrl),
            final(self)@.wf(),
            changed == (old(self)@.selection is Some || ctrl || old(self)@.cursor.col < old(
                self,
            )@.lines[old(self)@.cursor.row as int].len() || old(self)@.cursor.row + 1 < old(
                self,
            )@.lines.len()),
            old(self)@.delete_edits(ctrl) ==> final(self)@.is_one_edit_of(old(self)@),
    {
        let cursor = self.cursor;
        if self.selection.is_some() {
            self.remove_selection();
            proof {
                self@.lemma_one_edit(old(self)@, seq![old(self)@.selection_removal()]);
            }
            true
        } else if ctrl {
            let target = self.word_right();
            self.remove_forward_to(target);
            true
        } else if cursor.col < char_count(self.lines[cursor.row].as_str()) {
            self.edit_remove_char(cursor, (cursor, cursor), false);
            proof {
                let line = old(self)@.lines[cursor.row as int];
                assert(line.remove(cursor.col as int) =~= line.take(cursor.col as int) + line.skip(
                    cursor.col + 1,
                ));
                assert(self@.lines =~= without_span(
                    old(self)@.lines,
                    cursor,
                    right_of(cursor),
                ));
                let action = remove_char(old(self)@.lines, cursor, (cursor, cursor));
                self@.lemma_made_by_first(old(self)@, action);
                self@.lemma_one_edit(old(self)@, seq![action]);
            }
            true
        } else if cursor.row < self.lines.len() - 1 {
            self.edit_join_lines(cursor.row, (cursor, cursor), false);
            proof {
                let action = join_lines(old(self)@.lines, cursor.row, (cursor, cursor));
                self@.lemma_made_by_first(old(self)@, action);
                self@.lemma_one_edit(old(self)@, seq![action]);
            }
            true
        } else {
            false
        }
    }

    /// Copies the selected text to the clipboard.
    pub fn copy(&mut self)
        requires
            old(self)@.wf(),
        ensures
            final(self)@ == old(self)@.copied(),
            final(self)@.wf(),
    {
        match self.selected_text(false) {
            Some(text) => {
                self.clipboard = Some(join_text(&text));
            },
            None => {},
        }
    }

    /// Cuts the selected text to the clipboard. Returns whether there was a
    /// selection.
    pub fn cut(&mut self) -> (changed: bool)
        requires
            old(self)@.wf(),
        ensures
            final(self)@ == old(self)@.cut(),
            final(self)@.wf(),
            changed == (old(self)@.selection is Some),
            changed ==> final(self)@.is_one_edit_of(old(self)@),
    {
        if self.selection.is_some() {
            self.copy();
            let ghost copied = self@;
            self.remove_selection();
            proof {
                let chain = seq![copied.selection_removal()];
                self@.lemma_one_edit(old(self)@, chain);
            }
            true
        } else {
            false
        }
    }

    /// Pastes the text on the clipboard at the cursor, in place of the
    /// selection if there is one. Returns whether the clipboard held text.
    pub fn paste(&mut self) -> (changed: bool)
        requires
            old(self)@.wf(),
        ensures
            final(self)@ == old(self)@.pasted(),
            final(self)@.wf(),
            changed == old(self)@.can_paste(),
            changed ==> final(self)@.is_one_edit_of(old(self)@),
    {
        let block = match &self.clipboard {
            Some(text) => split_text(text.as_str()),
            None => {
                return false;
            },
        };
        let count = block.len();
        let first = match self.selection {
            Some(anchor) => CursorPosition::ordered(self.cursor, anchor).0.row,
            None => self.cursor.row,
        };
        let last = match first.checked_add(count - 1) {
            Some(row) => row,
            None => {
                return false;
            },
        };
        let chain = self.clear_selection();
        let ghost base = self@;
        let ghost payload = text_of(block@);
        let at = self.cursor;
        let _ = self.byte_position(at);
        let after = if count > 1 {
            CursorPosition { row: last, col: char_count(block[count - 1].as_str()) }
        } else {
            let _ = block[0].len();
            proof {
                crate::text::lemma_byte_len_bounds(block@[0]@);
            }
            CursorPosition { row: at.row, col: at.col + char_count(block[0].as_str()) }
        };
        proof {
            lemma_with_block(self@.lines, at, text_of(block@));
        }
        self.edit_insert_block(at, block, (at, after), chain);
        self.cursor = after;
        proof {
            let action = insertion(base.lines, at, payload, (at, after));
            if chain {
                let first = seq![old(self)@.selection_removal()];
                self@.lemma_made_by_next(old(self)@, base, first, action);
                self@.lemma_one_edit(old(self)@, first.push(action));
            } else {
                self@.lemma_made_by_first(old(self)@, action);
                self@.lemma_one_edit(old(self)@, seq![action]);
            }
        }
        true
    }

    /// Takes back the last logical edit and puts the cursor where it stood
    /// before it. Returns whether there was anything to undo.
    pub fn undo(&mut self) -> (changed: bool)
        requires
            old(self)@.wf(),
        ensures
            final(self)@ == old(self)@.undo_done(),
            final(self)@.wf(),
            changed == (old(self)@.undo.len() > 0),
    {
        proof {
            self@.lemma_undone_frame();
        }
        match self.undo_action() {
            Some(cursor) => {
                self.settle(cursor);
                true
            },
            None => false,
        }
    }

    /// Does the last undone logical edit again and puts the cursor where it
    /// stood after it. Returns whether there was anything to redo.
    pub fn redo(&mut self) -> (changed: bool)
        requires
            old(self)@.wf(),
        ensures
            final(self)@ == old(self)@.redo_done(),
            final(self)@.wf(),
            changed == (old(self)@.redo.len() > 0),
    {
        proof {
            self@.lemma_undone_frame();
        }
        match self.redo_action() {
            Some(cursor) => {
                self.settle(cursor);
                true
            },
            None => false,
        }
    }
}

} // verus!
