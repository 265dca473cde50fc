//! Where text stands on the screen: display columns, the scroll window of a
//! buffer, and the place of the cursor in the terminal.

use crate::cursor::CursorPosition;
use crate::padding::{digits, num_digits};
use crate::state::TextState;
use crate::text::{char_count, to_chars, CharSlice};
use crate::textarea::TextArea;
use crate::viewport::scroll;
use unicode_width::UnicodeWidthStr;
use vstd::prelude::*;

verus! {

/// The number of terminal columns that `UnicodeWidthStr::width` gives for
/// `text`.
pub uninterp spec fn display_width(text: Seq<char>) -> nat;

/// `UnicodeWidthStr::width` gives the number of terminal columns that the
/// text takes.
#[verifier::external_body]
fn str_width(text: &str) -> (width: usize)
    ensures
        width == display_width(text@),
{
    UnicodeWidthStr::width(text)
}

/// The number of tab characters in `text`.
pub open spec fn tabs(text: Seq<char>) -> nat
    decreases text.len(),
{
    if text.len() == 0 {
        0
    } else {
        tabs(text.drop_last()) + if text.last() == '\t' {
            1nat
        } else {
            0nat
        }
    }
}

/// A text has no more tabs than characters.
pub proof fn lemma_tabs_bound(text: Seq<char>)
    ensures
        tabs(text) <= text.len(),
    decreases text.len(),
{
    if text.len() > 0 {
        lemma_tabs_bound(text.drop_last());
    }
}

/// The display column at which column `col` of `line` stands: the width of
/// the text before it, with each tab taking `tab_width` columns.
pub open spec fn display_column(line: Seq<char>, col: int, tab_width: nat) -> nat {
    let before = crate::text::char_range(line, 0, col);
    (display_width(before) + tabs(before) * (tab_width - 1)) as nat
}

/// `n`, or the largest `usize` where `n` is larger.
pub open spec fn capped(n: int) -> usize {
    if n > usize::MAX {
        usize::MAX
    } else if n < 0 {
        0
    } else {
        n as usize
    }
}

/// The number of tab characters in `text`.
pub fn count_tabs(text: &str) -> (n: usize)
    ensures
        n == tabs(text@),
{
    let chars = to_chars(text);
    let mut n: usize = 0;
    let mut i: usize = 0;
    assert(chars@.take(0) =~= Seq::<char>::empty());
    while i < chars.len()
        invariant
            i <= chars.len(),
            chars@ == text@,
            n == tabs(chars@.take(i as int)),
            n <= i,
        decreases chars.len() - i,
    {
        assert(chars@.take(i + 1).drop_last() =~= chars@.take(i as int));
        if chars[i] == '\t' {
            n = n + 1;
        }
        i = i + 1;
    }
    assert(chars@.take(i as int) =~= chars@);
    n
}

/// The display column at which column `col` of `line` stands, as far as
/// `usize` reaches.
pub fn display_col(line: &str, col: usize, tab_width: usize) -> (r: usize)
    requires
        tab_width >= 1,
    ensures
        r == capped(display_column(line@, col as int, tab_width as nat) as int),
{
    let before = line.char_slice(0, col);
    let width = str_width(before);
    let count = count_tabs(before);
    match count.checked_mul(tab_width - 1) {
        Some(extra) => match width.checked_add(extra) {
            Some(sum) => sum,
            None => usize::MAX,
        },
        None => usize::MAX,
    }
}

impl TextState {
    /// The number of columns that the line numbers take, with the blank after
    /// them: none where they are not shown.
    pub open spec fn gutter(self) -> nat {
        if self.line_numbers {
            digits(self.lines.len()) + 1
        } else {
            0
        }
    }

    /// The display column of the cursor.
    pub open spec fn cursor_column(self) -> usize {
        capped(
            display_column(
                self.lines[self.cursor.row as int],
                self.cursor.col as int,
                self.indent.tab_width(),
            ) as int,
        )
    }

    /// The number of columns that are left for text in a window `width`
    /// columns wide.
    pub open spec fn text_columns(self, width: usize) -> usize {
        if width > self.gutter() {
            (width - self.gutter()) as usize
        } else {
            0
        }
    }
}

impl TextArea {
    /// The number of columns that the line numbers take.
    pub fn gutter(&self) -> (r: usize)
        ensures
            r == self@.gutter(),
            r <= 21,
    {
        if self.line_numbers {
            num_digits(self.lines.len()) as usize + 1
        } else {
            0
        }
    }

    /// The display column of the cursor.
    pub fn cursor_column(&self) -> (r: usize)
        requires
            self@.wf(),
        ensures
            r == self@.cursor_column(),
    {
        let tab_width = char_count(self.indent.spaces());
        display_col(self.lines[self.cursor.row].as_str(), self.cursor.col, tab_width)
    }

    /// Sets the size of the window to `width` columns, less those of the
    /// line numbers, and `height` rows, and scrolls it, as little as
    /// possible, so that it holds the cursor. Returns the top-left cell
    /// of the window and the cell one past its bottom-right cell.
    pub fn update_size(&mut self, width: usize, height: usize) -> (r: (
        CursorPosition,
        CursorPosition,
    ))
        requires
            old(self)@.wf(),
        ensures
            final(self)@ == (TextState { viewport: final(self)@.viewport, ..old(self)@ }),
            final(self)@.viewport.size() == (old(self)@.text_columns(width), height),
            final(self)@.viewport.origin().row == scroll(
                old(self)@.viewport.origin().row as int,
                height as int,
                old(self)@.cursor.row as int,
            ),
            final(self)@.viewport.origin().col == scroll(
                old(self)@.viewport.origin().col as int,
                old(self)@.text_columns(width) as int,
                old(self)@.cursor_column() as int,
            ),
            r.0 == final(self)@.viewport.origin(),
            r.1.row == capped(r.0.row + height),
            r.1.col == capped(r.0.col + old(self)@.text_columns(width)),
    {
        let gutter = self.gutter();
        let columns = if width > gutter {
            width - gutter
        } else {
            0
        };
        let target = CursorPosition { row: self.cursor.row, col: self.cursor_column() };
        self.viewport.resize(columns, height);
        self.viewport.update_view(target);
        let origin = self.viewport.position();
        (
            origin,
            CursorPosition {
                row: match origin.row.checked_add(height) {
                    Some(row) => row,
                    None => usize::MAX,
                },
                col: match origin.col.checked_add(columns) {
                    Some(col) => col,
                    None => usize::MAX,
                },
            },
        )
    }

    /// The column and the row of the terminal at which the cursor stands,
    /// counted from the top-left corner of the buffer's area: the display
    /// column of the cursor within the window, after the line numbers, and
    /// its row within the window. Nothing where the cursor is outside the
    /// window, or further in than a terminal has cells.
    pub fn terminal_cursor_position(&self) -> (r: Option<(u16, u16)>)
        requires
            self@.wf(),
        ensures
            match r {
                Some((x, y)) => {
                    &&& x == self@.gutter() + self@.cursor_column()
                        - self@.viewport.origin().col
                    &&& y == self@.cursor.row - self@.viewport.origin().row
                    &&& self@.cursor_column() >= self@.viewport.origin().col
                },
                None => {
                    ||| self@.cursor_column() < self@.viewport.origin().col
                    ||| self@.cursor.row < self@.viewport.origin().row
                    ||| self@.gutter() + self@.cursor_column() - self@.viewport.origin().col
                        > u16::MAX
                    ||| self@.cursor.row - self@.viewport.origin().row > u16::MAX
                },
            },
    {
        let target = CursorPosition { row: self.cursor.row, col: self.cursor_column() };
        let gutter = self.gutter();
        match self.viewport.relative(target) {
            Some((x, y)) => {
                if x <= 0xffff - gutter && y <= 0xffff {
                    Some(((gutter + x) as u16, y as u16))
                } else {
                    None
                }
            },
            None => None,
        }
    }
}

} // verus!
