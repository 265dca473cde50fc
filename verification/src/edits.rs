//! The edits that commands are made of: each builds one action for a
//! position of the buffer, applies it and records it.

use crate::cursor::CursorPosition;
use crate::history::{splice, BytePosition, HistoryAction};
use crate::state::{
    in_text, insert_char, insertion, join_lines, lemma_edit_at, lemma_join_lines, lemma_removal,
    remove_char, removal, split_line, with_block, without_span,
};
use crate::text::text_of;
use crate::textarea::TextArea;
use vstd::prelude::*;
use vstd::string::*;

verus! {

impl TextArea {
    /// The byte position of `at`.
    pub(crate) fn byte_position(&self, at: CursorPosition) -> (r: BytePosition)
        requires
            in_text(self@.lines, at),
        ensures
            r == crate::state::byte_position(self@.lines, at),
            2 * crate::text::byte_len(self@.lines[at.row as int]) <= usize::MAX,
            2 * self@.lines[at.row as int].len() <= usize::MAX,
    {
        let _ = self.lines[at.row].len();
        let line = self.lines[at.row].as_str();
        proof {
            crate::text::lemma_byte_len_bounds(line@);
        }
        BytePosition::from_line(at, line)
    }

    /// Inserts `ch` at `at`.
    pub(crate) fn edit_insert_char(
        &mut self,
        at: CursorPosition,
        ch: char,
        cursor: (CursorPosition, CursorPosition),
        chain: bool,
    )
        requires
            old(self)@.consistent(),
            in_text(old(self)@.lines, at),
        ensures
            final(self)@ == old(self)@.did(insert_char(old(self)@.lines, at, ch, cursor), chain),
            insert_char(old(self)@.lines, at, ch, cursor).reversible(old(self)@.lines),
            final(self)@.consistent(),
            final(self)@.lines == old(self)@.lines.update(
                at.row as int,
                old(self)@.lines[at.row as int].insert(at.col as int, ch),
            ),
    {
        let position = self.byte_position(at);
        proof {
            lemma_edit_at(self@.lines, at, ch, Seq::empty(), cursor);
        }
        let _ = self.record(HistoryAction::InsertChar { char: ch, position, cursor }, chain);
    }

    /// Removes the character at `at`.
    pub(crate) fn edit_remove_char(
        &mut self,
        at: CursorPosition,
        cursor: (CursorPosition, CursorPosition),
        chain: bool,
    )
        requires
            old(self)@.consistent(),
            in_text(old(self)@.lines, at),
            at.col < old(self)@.lines[at.row as int].len(),
        ensures
            final(self)@ == old(self)@.did(remove_char(old(self)@.lines, at, cursor), chain),
            remove_char(old(self)@.lines, at, cursor).reversible(old(self)@.lines),
            final(self)@.consistent(),
            final(self)@.lines == old(self)@.lines.update(
                at.row as int,
                old(self)@.lines[at.row as int].remove(at.col as int),
            ),
    {
        let position = self.byte_position(at);
        let ch = self.lines[at.row].as_str().get_char(at.col);
        proof {
            lemma_edit_at(self@.lines, at, ch, Seq::empty(), cursor);
        }
        let _ = self.record(HistoryAction::RemoveChar { char: ch, position, cursor }, chain);
    }

    /// Breaks the line at `at` in two.
    pub(crate) fn edit_split_line(
        &mut self,
        at: CursorPosition,
        cursor: (CursorPosition, CursorPosition),
        chain: bool,
    )
        requires
            old(self)@.consistent(),
            in_text(old(self)@.lines, at),
        ensures
            final(self)@ == old(self)@.did(split_line(old(self)@.lines, at, cursor), chain),
            split_line(old(self)@.lines, at, cursor).reversible(old(self)@.lines),
            final(self)@.consistent(),
            final(self)@.lines == splice(
                old(self)@.lines,
                at.row as int,
                1,
                seq![
                    old(self)@.lines[at.row as int].take(at.col as int),
                    old(self)@.lines[at.row as int].skip(at.col as int),
                ],
            ),
    {
        let position = self.byte_position(at);
        proof {
            lemma_edit_at(self@.lines, at, ' ', Seq::empty(), cursor);
        }
        let _ = self.record(HistoryAction::InsertLinebreak { position, cursor }, chain);
    }

    /// Joins row `row` with the row after it.
    pub(crate) fn edit_join_lines(
        &mut self,
        row: usize,
        cursor: (CursorPosition, CursorPosition),
        chain: bool,
    )
        requires
            old(self)@.consistent(),
            row + 1 < old(self)@.lines.len(),
        ensures
            final(self)@ == old(self)@.did(join_lines(old(self)@.lines, row, cursor), chain),
            join_lines(old(self)@.lines, row, cursor).reversible(old(self)@.lines),
            final(self)@.consistent(),
            final(self)@.lines == splice(
                old(self)@.lines,
                row as int,
                2,
                seq![old(self)@.lines[row as int] + old(self)@.lines[row + 1]],
            ),
    {
        let col = self.lines[row].len();
        proof {
            lemma_join_lines(self@.lines, row, cursor);
        }
        let position = BytePosition { row, col };
        let _ = self.record(HistoryAction::RemoveLinebreak { position, cursor }, chain);
    }

    /// Inserts the lines of `block` at `at`.
    pub(crate) fn edit_insert_block(
        &mut self,
        at: CursorPosition,
        block: Vec<String>,
        cursor: (CursorPosition, CursorPosition),
        chain: bool,
    )
        requires
            old(self)@.consistent(),
            in_text(old(self)@.lines, at),
            block@.len() >= 1,
        ensures
            final(self)@ == old(self)@.did(
                insertion(old(self)@.lines, at, text_of(block@), cursor),
                chain,
            ),
            insertion(old(self)@.lines, at, text_of(block@), cursor).reversible(old(self)@.lines),
            final(self)@.consistent(),
            final(self)@.lines == with_block(old(self)@.lines, at, text_of(block@)),
    {
        let position = self.byte_position(at);
        proof {
            lemma_edit_at(self@.lines, at, ' ', text_of(block@), cursor);
        }
        let _ = self.record(HistoryAction::InsertLines { lines: block, position, cursor }, chain);
    }

    /// Removes the text between `start` and `end`.
    pub(crate) fn edit_remove_span(
        &mut self,
        start: CursorPosition,
        end: CursorPosition,
        cursor: (CursorPosition, CursorPosition),
        chain: bool,
    )
        requires
            old(self)@.consistent(),
            in_text(old(self)@.lines, start),
            in_text(old(self)@.lines, end),
            start.before_or_at(end),
        ensures
            final(self)@ == old(self)@.did(removal(old(self)@.lines, start, end, cursor), chain),
            removal(old(self)@.lines, start, end, cursor).reversible(old(self)@.lines),
            final(self)@.consistent(),
            final(self)@.lines == without_span(old(self)@.lines, start, end),
            in_text(final(self)@.lines, start),
    {
        let position = self.byte_position(start);
        let lines = self.text_between(start, end);
        proof {
            lemma_removal(self@.lines, start, end, cursor);
        }
        let _ = self.record(HistoryAction::RemoveLines { lines, position, cursor }, chain);
    }

    /// Exchanges the rows `first` and `second`.
    pub(crate) fn edit_swap_lines(
        &mut self,
        first: usize,
        second: usize,
        cursor: (CursorPosition, CursorPosition),
        chain: bool,
    )
        requires
            old(self)@.consistent(),
            first < old(self)@.lines.len(),
            second < old(self)@.lines.len(),
        ensures
            final(self)@ == old(self)@.did(
                crate::history::ActionView::SwapLines { lines: (first, second), cursor },
                chain,
            ),
            (crate::history::ActionView::SwapLines { lines: (first, second), cursor }).reversible(
                old(self)@.lines,
            ),
            final(self)@.consistent(),
            final(self)@.lines == old(self)@.lines.update(
                first as int,
                old(self)@.lines[second as int],
            ).update(second as int, old(self)@.lines[first as int]),
    {
        let _ = self.record(HistoryAction::SwapLines { lines: (first, second), cursor }, chain);
    }
}

} // verus!
