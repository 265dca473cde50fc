//! The scroll window: which part of the text is visible.

use crate::cursor::CursorPosition;
use vstd::prelude::*;

verus! {

/// Where a window of `size` cells that starts at `origin` has to start so
/// that it holds `target`, moved as little as possible. A window without
/// cells counts as one of a single cell.
pub open spec fn scroll(origin: int, size: int, target: int) -> int {
    let size = if size < 1 {
        1
    } else {
        size
    };
    if target >= origin + size {
        target - (size - 1)
    } else if target < origin {
        target
    } else {
        origin
    }
}

/// After scrolling, the target is inside the window, and a window that held
/// the target already has not moved.
pub proof fn lemma_scroll(origin: int, size: int, target: int)
    requires
        size >= 1,
    ensures
        scroll(origin, size, target) <= target < scroll(origin, size, target) + size,
        origin <= target < origin + size ==> scroll(origin, size, target) == origin,
        scroll(scroll(origin, size, target), size, target) == scroll(origin, size, target),
{
}

/// Where a window starts after scrolling to `target`.
pub fn scroll_to(origin: usize, size: usize, target: usize) -> (r: usize)
    ensures
        r == scroll(origin as int, size as int, target as int),
{
    let size = if size < 1 {
        1
    } else {
        size
    };
    if target < origin {
        target
    } else if target - origin >= size {
        target - (size - 1)
    } else {
        origin
    }
}

/// The scroll window: its top-left corner and its size.
#[derive(Debug, Clone, Copy)]
pub struct Viewport {
    position: CursorPosition,
    width: usize,
    height: usize,
}

impl Viewport {
    /// The top-left corner of the window.
    pub closed spec fn origin(&self) -> CursorPosition {
        self.position
    }

    /// The width and the height of the window.
    pub closed spec fn size(&self) -> (usize, usize) {
        (self.width, self.height)
    }

    /// The top-left corner of the window.
    pub fn position(&self) -> (r: CursorPosition)
        ensures
            r == self.origin(),
    {
        self.position
    }

    /// The number of rows of the window.
    pub fn height(&self) -> (r: usize)
        ensures
            r == self.size().1,
    {
        self.height
    }

    /// The number of columns of the window.
    pub fn width(&self) -> (r: usize)
        ensures
            r == self.size().0,
    {
        self.width
    }

    /// Sets the size of the window; its corner stays.
    pub fn update_size(&mut self, width: u16, height: u16)
        ensures
            final(self).size() == (width as usize, height as usize),
            final(self).origin() == old(self).origin(),
    {
        self.width = width as usize;
        self.height = height as usize;
    }

    /// Sets the size of the window; its corner stays.
    pub fn resize(&mut self, width: usize, height: usize)
        ensures
            final(self).size() == (width, height),
            final(self).origin() == old(self).origin(),
    {
        self.width = width;
        self.height = height;
    }

    /// The top-left and the bottom-right cell of the window. A window without
    /// rows or columns has both in one place.
    pub fn rect(&self) -> (r: (CursorPosition, CursorPosition))
        ensures
            r.0 == self.origin(),
            r.1.row == far_edge(self.origin().row, self.size().1),
            r.1.col == far_edge(self.origin().col, self.size().0),
    {
        (
            self.position,
            CursorPosition {
                row: last_cell(self.position.row, self.height),
                col: last_cell(self.position.col, self.width),
            },
        )
    }

    /// Moves the window, as little as possible, so that it holds `cursor`.
    pub fn update_view(&mut self, cursor: CursorPosition)
        ensures
            final(self).size() == old(self).size(),
            final(self).origin().row == scroll(
                old(self).origin().row as int,
                old(self).size().1 as int,
                cursor.row as int,
            ),
            final(self).origin().col == scroll(
                old(self).origin().col as int,
                old(self).size().0 as int,
                cursor.col as int,
            ),
    {
        self.position =
        CursorPosition {
            row: scroll_to(self.position.row, self.height, cursor.row),
            col: scroll_to(self.position.col, self.width, cursor.col),
        };
    }

    /// Where `cursor` stands relative to the corner of the window, if it is
    /// not above or left of it.
    pub fn relative(&self, cursor: CursorPosition) -> (r: Option<(usize, usize)>)
        ensures
            match r {
                Some((x, y)) => {
                    &&& self.origin().col + x == cursor.col
                    &&& self.origin().row + y == cursor.row
                },
                None => cursor.col < self.origin().col || cursor.row < self.origin().row,
            },
    {
        if cursor.col >= self.position.col && cursor.row >= self.position.row {
            Some((cursor.col - self.position.col, cursor.row - self.position.row))
        } else {
            None
        }
    }
}

impl Viewport {
    /// The column and the row of the terminal at which `cursor` stands,
    /// counted from the corner of the window. Nothing where the cursor is
    /// above or left of the window, or further in than a terminal has cells.
    pub fn terminal_cursor_position(&self, cursor: CursorPosition) -> (r: Option<(u16, u16)>)
        ensures
            match r {
                Some((x, y)) => {
                    &&& self.origin().col + x == cursor.col
                    &&& self.origin().row + y == cursor.row
                },
                None => {
                    ||| cursor.col < self.origin().col
                    ||| cursor.row < self.origin().row
                    ||| cursor.col - self.origin().col > u16::MAX
                    ||| cursor.row - self.origin().row > u16::MAX
                },
            },
    {
        match self.relative(cursor) {
            Some((x, y)) => {
                if x <= 0xffff && y <= 0xffff {
                    Some((x as u16, y as u16))
                } else {
                    None
                }
            },
            None => None,
        }
    }
}

/// The last cell of a window of `size` cells that starts at `origin`: the
/// origin itself for a window without cells, and no further than `usize`
/// reaches.
pub open spec fn far_edge(origin: usize, size: usize) -> usize {
    if size == 0 {
        origin
    } else if origin + size - 1 > usize::MAX {
        usize::MAX
    } else {
        (origin + size - 1) as usize
    }
}

/// The last cell of a window of `size` cells that starts at `origin`.
fn last_cell(origin: usize, size: usize) -> (r: usize)
    ensures
        r == far_edge(origin, size),
{
    if size == 0 {
        origin
    } else if size - 1 > usize::MAX - origin {
        usize::MAX
    } else {
        origin + (size - 1)
    }
}

impl Default for Viewport {
    /// A window without cells at the start of the text.
    fn default() -> (r: Viewport)
        ensures
            r.origin() == (CursorPosition { row: 0, col: 0 }),
            r.size() == (0usize, 0usize),
    {
        Viewport { position: CursorPosition { row: 0, col: 0 }, width: 0, height: 0 }
    }
}

} // verus!
