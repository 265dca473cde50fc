//! Moving the cursor.

use crate::cursor::CursorPosition;
use crate::state::{in_text, TextState};
use crate::text::{char_count, to_chars};
use crate::textarea::TextArea;
use crate::word::{next_word_at, previous_word_at, white_space, Word};
use vstd::prelude::*;

verus! {

/// A line is blank where it holds nothing but white space.
pub open spec fn is_blank(line: Seq<char>) -> bool {
    forall|i: int| 0 <= i < line.len() ==> white_space(#[trigger] line[i])
}

/// The position on `row` at column `col`, or at the end of the row where the
/// row is shorter.
pub open spec fn clamped(text: Seq<Seq<char>>, row: int, col: int) -> CursorPosition {
    CursorPosition {
        row: row as usize,
        col: if col < text[row].len() {
            col as usize
        } else {
            text[row].len() as usize
        },
    }
}

/// The row at or before `row` above which no blank row directly lies.
pub open spec fn skip_blank_up(text: Seq<Seq<char>>, row: int) -> int
    decreases row,
{
    if 0 < row <= text.len() && is_blank(text[row - 1]) {
        skip_blank_up(text, row - 1)
    } else {
        row
    }
}

/// The row at or before `row` above which a blank row directly lies, or the
/// first row.
pub open spec fn paragraph_start(text: Seq<Seq<char>>, row: int) -> int
    decreases row,
{
    if 0 < row <= text.len() && !is_blank(text[row - 1]) {
        paragraph_start(text, row - 1)
    } else {
        row
    }
}

/// The first row at or after `row` that is blank, if `blank`, or that is not
/// blank, if not; the last row where there is none.
pub open spec fn next_row(text: Seq<Seq<char>>, row: int, blank: bool) -> int
    decreases text.len() - row,
{
    if row >= text.len() {
        text.len() - 1
    } else if is_blank(text[row]) == blank {
        row
    } else {
        next_row(text, row + 1, blank)
    }
}

impl TextState {
    /// Moving the cursor keeps a well-formed buffer well formed.
    pub proof fn lemma_moved_wf(self, cursor: CursorPosition, shift: bool)
        requires
            self.wf(),
        ensures
            self.moved(cursor, shift).wf(),
            self.selected(Some(cursor)).wf(),
            self.selected(None).wf(),
    {
    }

    /// One row up, keeping the column where the row is long enough.
    pub open spec fn up(self, shift: bool) -> TextState {
        if self.cursor.row > 0 {
            self.moved(clamped(self.lines, self.cursor.row - 1, self.cursor.col as int), shift)
        } else {
            self
        }
    }

    /// One row down, keeping the column where the row is long enough.
    pub open spec fn down(self, shift: bool) -> TextState {
        if self.cursor.row + 1 < self.lines.len() {
            self.moved(clamped(self.lines, self.cursor.row + 1, self.cursor.col as int), shift)
        } else {
            self
        }
    }

    /// To the first row of the paragraph above the cursor: blank rows right
    /// above the cursor are passed over, then the rows up to the next blank
    /// row.
    pub open spec fn paragraph_up(self, shift: bool) -> TextState {
        let row = paragraph_start(self.lines, skip_blank_up(self.lines, self.cursor.row as int));
        self.moved(clamped(self.lines, row, self.cursor.col as int), shift)
    }

    /// From a blank row to the next row that is not blank, from any other row
    /// to the next blank row; to the last row where there is none.
    pub open spec fn paragraph_down(self, shift: bool) -> TextState {
        let row = next_row(
            self.lines,
            self.cursor.row + 1,
            !is_blank(self.lines[self.cursor.row as int]),
        );
        self.moved(clamped(self.lines, row, self.cursor.col as int), shift)
    }

    /// To the first row.
    pub open spec fn top(self, shift: bool) -> TextState {
        self.moved(clamped(self.lines, 0, self.cursor.col as int), shift)
    }

    /// To the last row.
    pub open spec fn bottom(self, shift: bool) -> TextState {
        self.moved(clamped(self.lines, self.lines.len() - 1, self.cursor.col as int), shift)
    }

    /// One character to the left, to the end of the row above at the start
    /// of a row. Without `shift` a selection is left at its earlier end.
    pub open spec fn left(self, shift: bool) -> TextState {
        let cursor = self.cursor;
        if self.selection is Some && !shift {
            self.moved(cursor.spec_min(self.selection->0), false)
        } else if cursor.col > 0 {
            self.moved(CursorPosition { row: cursor.row, col: (cursor.col - 1) as usize }, shift)
        } else if cursor.row > 0 {
            self.moved(
                CursorPosition {
                    row: (cursor.row - 1) as usize,
                    col: self.lines[cursor.row - 1].len() as usize,
                },
                shift,
            )
        } else {
            self
        }
    }

    /// One character to the right, to the start of the row below at the end
    /// of a row. Without `shift` a selection is left at its later end.
    pub open spec fn right(self, shift: bool) -> TextState {
        let cursor = self.cursor;
        if self.selection is Some && !shift {
            self.moved(cursor.spec_max(self.selection->0), false)
        } else if cursor.col < self.lines[cursor.row as int].len() {
            self.moved(CursorPosition { row: cursor.row, col: (cursor.col + 1) as usize }, shift)
        } else if cursor.row + 1 < self.lines.len() {
            self.moved(CursorPosition { row: (cursor.row + 1) as usize, col: 0 }, shift)
        } else {
            self
        }
    }

    /// Where a word-wise step to the left ends: at the start of the word
    /// before the cursor, else at the start of the row, else at the end of
    /// the row above.
    pub open spec fn word_left_target(self) -> CursorPosition {
        let cursor = self.cursor;
        match previous_word_at(self.lines[cursor.row as int], cursor.col as int) {
            Some(col) => CursorPosition { row: cursor.row, col: col as usize },
            None => if cursor.col > 0 {
                CursorPosition { row: cursor.row, col: 0 }
            } else if cursor.row > 0 {
                CursorPosition {
                    row: (cursor.row - 1) as usize,
                    col: self.lines[cursor.row - 1].len() as usize,
                }
            } else {
                cursor
            },
        }
    }

    /// Where a word-wise step to the right ends: at the end of the word at
    /// or after the cursor, else at the end of the row, else at the start of
    /// the row below.
    pub open spec fn word_right_target(self) -> CursorPosition {
        let cursor = self.cursor;
        match next_word_at(self.lines[cursor.row as int], cursor.col as int) {
            Some(col) => CursorPosition { row: cursor.row, col: col as usize },
            None => if cursor.col < self.lines[cursor.row as int].len() {
                CursorPosition {
                    row: cursor.row,
                    col: self.lines[cursor.row as int].len() as usize,
                }
            } else if cursor.row + 1 < self.lines.len() {
                CursorPosition { row: (cursor.row + 1) as usize, col: 0 }
            } else {
                cursor
            },
        }
    }

    /// To the start of the row.
    pub open spec fn home(self, shift: bool) -> TextState {
        self.moved(CursorPosition { row: self.cursor.row, col: 0 }, shift)
    }

    /// To the end of the row.
    pub open spec fn end(self, shift: bool) -> TextState {
        self.moved(
            CursorPosition {
                row: self.cursor.row,
                col: self.lines[self.cursor.row as int].len() as usize,
            },
            shift,
        )
    }

    /// Up by as many rows as the window has, or to the first row.
    pub open spec fn page_up(self, shift: bool) -> TextState {
        let rows = self.viewport.size().1;
        let row = if self.cursor.row > rows {
            self.cursor.row - rows
        } else {
            0
        };
        self.moved(clamped(self.lines, row, self.cursor.col as int), shift)
    }

    /// Down by as many rows as the window has, or to the last row.
    pub open spec fn page_down(self, shift: bool) -> TextState {
        let rows = self.viewport.size().1;
        let row = if self.cursor.row + rows < self.lines.len() {
            self.cursor.row + rows
        } else {
            self.lines.len() - 1
        };
        self.moved(clamped(self.lines, row, self.cursor.col as int), shift)
    }

    /// Everything selected: the cursor at the end of the text, the other end
    /// of the selection at its start.
    pub open spec fn all_selected(self) -> TextState {
        TextState {
            cursor: CursorPosition {
                row: (self.lines.len() - 1) as usize,
                col: self.lines.last().len() as usize,
            },
            selection: Some(CursorPosition { row: 0, col: 0 }),
            ..self
        }
    }
}

/// Whether `line` holds nothing but white space.
pub fn blank(line: &str) -> (r: bool)
    ensures
        r == is_blank(line@),
{
    let chars = to_chars(line);
    let mut i: usize = 0;
    while i < chars.len()
        invariant
            i <= chars.len(),
            chars@ == line@,
            forall|k: int| 0 <= k < i ==> white_space(#[trigger] line@[k]),
        decreases chars.len() - i,
    {
        if !chars[i].is_whitespace() {
            return false;
        }
        i = i + 1;
    }
    true
}

impl TextArea {
    /// The position on `row` at the cursor's column, or at the end of the
    /// row where the row is shorter.
    fn clamp_to_row(&self, row: usize) -> (r: CursorPosition)
        requires
            row < self@.lines.len(),
        ensures
            r == clamped(self@.lines, row as int, self@.cursor.col as int),
            in_text(self@.lines, r),
    {
        let width = char_count(self.lines[row].as_str());
        CursorPosition {
            row,
            col: if self.cursor.col < width {
                self.cursor.col
            } else {
                width
            },
        }
    }

    /// Moves the cursor one row up.
    pub fn move_up(&mut self, shift: bool)
        requires
            old(self)@.wf(),
        ensures
            final(self)@ == old(self)@.up(shift),
            final(self)@.wf(),
    {
        if self.cursor.row > 0 {
            let target = self.clamp_to_row(self.cursor.row - 1);
            proof {
                self@.lemma_moved_wf(target, shift);
            }
            self.set_cursor(target, shift);
        }
    }

    /// Moves the cursor one row down.
    pub fn move_down(&mut self, shift: bool)
        requires
            old(self)@.wf(),
        ensures
            final(self)@ == old(self)@.down(shift),
            final(self)@.wf(),
    {
        if self.cursor.row < self.lines.len() - 1 {
            let target = self.clamp_to_row(self.cursor.row + 1);
            proof {
                self@.lemma_moved_wf(target, shift);
            }
            self.set_cursor(target, shift);
        }
    }

    /// Moves the cursor to the start of the paragraph above it.
    pub fn move_paragraph_up(&mut self, shift: bool)
        requires
            old(self)@.wf(),
        ensures
            final(self)@ == old(self)@.paragraph_up(shift),
            final(self)@.wf(),
    {
        let mut row: usize = self.cursor.row;
        while row > 0 && blank(self.lines[row - 1].as_str())
            invariant
                row <= self.cursor.row < self.lines@.len(),
                skip_blank_up(self@.lines, self.cursor.row as int) == skip_blank_up(
                    self@.lines,
                    row as int,
                ),
            decreases row,
        {
            row = row - 1;
        }
        let ghost from = row;
        while row > 0 && !blank(self.lines[row - 1].as_str())
            invariant
                row <= from <= self.cursor.row < self.lines@.len(),
                paragraph_start(self@.lines, from as int) == paragraph_start(
                    self@.lines,
                    row as int,
                ),
            decreases row,
        {
            row = row - 1;
        }
        let target = self.clamp_to_row(row);
        proof {
            self@.lemma_moved_wf(target, shift);
        }
        self.set_cursor(target, shift);
    }

    /// Moves the cursor to the next paragraph boundary below it.
    pub fn move_paragraph_down(&mut self, shift: bool)
        requires
            old(self)@.wf(),
        ensures
            final(self)@ == old(self)@.paragraph_down(shift),
            final(self)@.wf(),
    {
        let total = self.lines.len();
        let wanted = !blank(self.lines[self.cursor.row].as_str());
        let mut row: usize = self.cursor.row + 1;
        while row < total && blank(self.lines[row].as_str()) != wanted
            invariant
                self.cursor.row < row <= total,
                total == self.lines@.len(),
                next_row(self@.lines, self.cursor.row + 1, wanted) == next_row(
                    self@.lines,
                    row as int,
                    wanted,
                ),
            decreases total - row,
        {
            row = row + 1;
        }
        if row >= total {
            row = total - 1;
        }
        let target = self.clamp_to_row(row);
        proof {
            self@.lemma_moved_wf(target, shift);
        }
        self.set_cursor(target, shift);
    }

    /// Moves the cursor to the first row.
    pub fn move_top(&mut self, shift: bool)
        requires
            old(self)@.wf(),
        ensures
            final(self)@ == old(self)@.top(shift),
            final(self)@.wf(),
    {
        let target = self.clamp_to_row(0);
        proof {
            self@.lemma_moved_wf(target, shift);
        }
        self.set_cursor(target, shift);
    }

    /// Moves the cursor to the last row.
    pub fn move_bottom(&mut self, shift: bool)
        requires
            old(self)@.wf(),
        ensures
            final(self)@ == old(self)@.bottom(shift),
            final(self)@.wf(),
    {
        let target = self.clamp_to_row(self.lines.len() - 1);
        proof {
            self@.lemma_moved_wf(target, shift);
        }
        self.set_cursor(target, shift);
    }

    /// Moves the cursor one character to the left.
    pub fn move_left(&mut self, shift: bool)
        requires
            old(self)@.wf(),
        ensures
            final(self)@ == old(self)@.left(shift),
            final(self)@.wf(),
    {
        let cursor = self.cursor;
        let target = match self.selection {
            Some(anchor) if !shift => CursorPosition::ordered(cursor, anchor).0,
            _ => {
                if cursor.col > 0 {
                    CursorPosition { row: cursor.row, col: cursor.col - 1 }
                } else if cursor.row > 0 {
                    CursorPosition {
                        row: cursor.row - 1,
                        col: char_count(self.lines[cursor.row - 1].as_str()),
                    }
                } else {
                    return ;
                }
            },
        };
        proof {
            self@.lemma_moved_wf(target, shift);
        }
        self.set_cursor(target, shift);
    }

    /// Moves the cursor one character to the right.
    pub fn move_right(&mut self, shift: bool)
        requires
            old(self)@.wf(),
        ensures
            final(self)@ == old(self)@.right(shift),
            final(self)@.wf(),
    {
        let cursor = self.cursor;
        let target = match self.selection {
            Some(anchor) if !shift => CursorPosition::ordered(cursor, anchor).1,
            _ => {
                if cursor.col < char_count(self.lines[cursor.row].as_str()) {
                    CursorPosition { row: cursor.row, col: cursor.col + 1 }
                } else if cursor.row < self.lines.len() - 1 {
                    CursorPosition { row: cursor.row + 1, col: 0 }
                } else {
                    return ;
                }
            },
        };
        proof {
            self@.lemma_moved_wf(target, shift);
        }
        self.set_cursor(target, shift);
    }

    /// Where a word-wise step to the left ends.
    pub fn word_left(&self) -> (r: CursorPosition)
        requires
            self@.wf(),
        ensures
            r == self@.word_left_target(),
            in_text(self@.lines, r),
            r.before_or_at(self@.cursor),
            r.row == self@.cursor.row || (self@.cursor.col == 0 && r.row + 1 == self@.cursor.row),
    {
        let cursor = self.cursor;
        proof {
            crate::word::lemma_previous_word_bounds(
                self@.lines[cursor.row as int],
                cursor.col as int,
            );
        }
        match self.lines[cursor.row].as_str().previous_word(cursor.col) {
            Some(col) => CursorPosition { row: cursor.row, col },
            None => {
                if cursor.col > 0 {
                    CursorPosition { row: cursor.row, col: 0 }
                } else if cursor.row > 0 {
                    CursorPosition {
                        row: cursor.row - 1,
                        col: char_count(self.lines[cursor.row - 1].as_str()),
                    }
                } else {
                    cursor
                }
            },
        }
    }

    /// Where a word-wise step to the right ends.
    pub fn word_right(&self) -> (r: CursorPosition)
        requires
            self@.wf(),
        ensures
            r == self@.word_right_target(),
            in_text(self@.lines, r),
            self@.cursor.before_or_at(r),
            r.row == self@.cursor.row || (r.col == 0 && r.row == self@.cursor.row + 1
                && self@.cursor.col == self@.lines[self@.cursor.row as int].len()),
    {
        let cursor = self.cursor;
        proof {
            crate::word::lemma_next_word_bounds(self@.lines[cursor.row as int], cursor.col as int);
        }
        match self.lines[cursor.row].as_str().next_word(cursor.col) {
            Some(col) => CursorPosition { row: cursor.row, col },
            None => {
                let width = char_count(self.lines[cursor.row].as_str());
                if cursor.col < width {
                    CursorPosition { row: cursor.row, col: width }
                } else if cursor.row < self.lines.len() - 1 {
                    CursorPosition { row: cursor.row + 1, col: 0 }
                } else {
                    cursor
                }
            },
        }
    }

    /// Moves the cursor by a word to the left.
    pub fn move_word_left(&mut self, shift: bool)
        requires
            old(self)@.wf(),
        ensures
            final(self)@ == old(self)@.moved(old(self)@.word_left_target(), shift),
            final(self)@.wf(),
    {
        let target = self.word_left();
        proof {
            self@.lemma_moved_wf(target, shift);
        }
        self.set_cursor(target, shift);
    }

    /// Moves the cursor by a word to the right.
    pub fn move_word_right(&mut self, shift: bool)
        requires
            old(self)@.wf(),
        ensures
            final(self)@ == old(self)@.moved(old(self)@.word_right_target(), shift),
            final(self)@.wf(),
    {
        let target = self.word_right();
        proof {
            self@.lemma_moved_wf(target, shift);
        }
        self.set_cursor(target, shift);
    }

    /// Moves the cursor to the start of its row.
    pub fn move_home(&mut self, shift: bool)
        requires
            old(self)@.wf(),
        ensures
            final(self)@ == old(self)@.home(shift),
            final(self)@.wf(),
    {
        let target = CursorPosition { row: self.cursor.row, col: 0 };
        proof {
            self@.lemma_moved_wf(target, shift);
        }
        self.set_cursor(target, shift);
    }

    /// Moves the cursor to the end of its row.
    pub fn move_end(&mut self, shift: bool)
        requires
            old(self)@.wf(),
        ensures
            final(self)@ == old(self)@.end(shift),
            final(self)@.wf(),
    {
        let target = CursorPosition {
            row: self.cursor.row,
            col: char_count(self.lines[self.cursor.row].as_str()),
        };
        proof {
            self@.lemma_moved_wf(target, shift);
        }
        self.set_cursor(target, shift);
    }

    /// Moves the cursor up by the height of the window.
    pub fn move_page_up(&mut self, shift: bool)
        requires
            old(self)@.wf(),
        ensures
            final(self)@ == old(self)@.page_up(shift),
            final(self)@.wf(),
    {
        let rows = self.viewport.height();
        let row = if self.cursor.row > rows {
            self.cursor.row - rows
        } else {
            0
        };
        let target = self.clamp_to_row(row);
        proof {
            self@.lemma_moved_wf(target, shift);
        }
        self.set_cursor(target, shift);
    }

    /// Moves the cursor down by the height of the window.
    pub fn move_page_down(&mut self, shift: bool)
        requires
            old(self)@.wf(),
        ensures
            final(self)@ == old(self)@.page_down(shift),
            final(self)@.wf(),
    {
        let rows = self.viewport.height();
        let last = self.lines.len() - 1;
        let row = if rows < last - self.cursor.row {
            self.cursor.row + rows
        } else {
            last
        };
        let target = self.clamp_to_row(row);
        proof {
            self@.lemma_moved_wf(target, shift);
        }
        self.set_cursor(target, shift);
    }

    /// Selects the whole text.
    pub fn select_all(&mut self)
        requires
            old(self)@.wf(),
        ensures
            final(self)@ == old(self)@.all_selected(),
            final(self)@.wf(),
    {
        let last = self.lines.len() - 1;
        self.cursor = CursorPosition { row: last, col: char_count(self.lines[last].as_str()) };
        self.selection = Some(CursorPosition { row: 0, col: 0 });
    }
}

} // verus!
