//! Moving rows up and down.

use crate::cursor::CursorPosition;
use crate::history::ActionView;
use crate::state::{applied, can_apply, TextState};
use crate::textarea::TextArea;
use vstd::prelude::*;

verus! {

/// The position one row above `at`.
pub open spec fn row_above(at: CursorPosition) -> CursorPosition {
    CursorPosition { row: (at.row - 1) as usize, col: at.col }
}

/// The position one row below `at`.
pub open spec fn row_below(at: CursorPosition) -> CursorPosition {
    CursorPosition { row: (at.row + 1) as usize, col: at.col }
}

/// `text` with the rows from `first` up to, not including, `end` moved up by
/// one row, and the row that stood above them put below them.
pub open spec fn raised_text(text: Seq<Seq<char>>, first: int, end: int) -> Seq<Seq<char>> {
    Seq::new(
        text.len(),
        |r: int|
            if first - 1 <= r < end - 1 {
                text[r + 1]
            } else if r == end - 1 {
                text[first - 1]
            } else {
                text[r]
            },
    )
}

/// `text` with the rows from `first` up to, not including, `end` moved down
/// by one row, and the row that stood below them put above them.
pub open spec fn lowered_text(text: Seq<Seq<char>>, first: int, end: int) -> Seq<Seq<char>> {
    Seq::new(
        text.len(),
        |r: int|
            if first < r <= end {
                text[r - 1]
            } else if r == first {
                text[end]
            } else {
                text[r]
            },
    )
}

impl TextState {
    /// The swaps that move the `count` rows from `first` on up by one row:
    /// each row changes places with the one above it, the first row first.
    pub open spec fn raise_chain(self, first: int, count: nat) -> Seq<ActionView> {
        let up = row_above(self.cursor);
        Seq::new(
            count,
            |i: int|
                ActionView::SwapLines {
                    lines: ((first + i) as usize, (first + i - 1) as usize),
                    cursor: if i == 0 {
                        (self.cursor, up)
                    } else {
                        (up, up)
                    },
                },
        )
    }

    /// The swaps that move the `count` rows up to `last` down by one row:
    /// each row changes places with the one below it, the last row first.
    pub open spec fn lower_chain(self, last: int, count: nat) -> Seq<ActionView> {
        let down = row_below(self.cursor);
        Seq::new(
            count,
            |i: int|
                ActionView::SwapLines {
                    lines: ((last - i) as usize, (last - i + 1) as usize),
                    cursor: if i == 0 {
                        (self.cursor, down)
                    } else {
                        (down, down)
                    },
                },
        )
    }

    /// Whether there is a row above the selected rows.
    pub open spec fn can_raise(self) -> bool {
        self.rows().0 > 0
    }

    /// Whether there is a row below the selected rows.
    pub open spec fn can_lower(self) -> bool {
        self.rows().1 < self.lines.len()
    }

    /// The state after the selected rows, or the cursor's row, have moved up
    /// by one row, as one logical edit; cursor and selection move with them.
    /// At the top nothing changes.
    pub open spec fn raised(self) -> TextState {
        let (first, end) = self.rows();
        if self.can_raise() {
            TextState {
                cursor: row_above(self.cursor),
                selection: match self.selection {
                    Some(anchor) => Some(row_above(anchor)),
                    None => None,
                },
                ..self.edited_all(
                    raised_text(self.lines, first, end),
                    self.raise_chain(first, (end - first) as nat),
                )
            }
        } else {
            self
        }
    }

    /// The state after the selected rows, or the cursor's row, have moved
    /// down by one row, as one logical edit; cursor and selection move with
    /// them. At the bottom nothing changes.
    pub open spec fn lowered(self) -> TextState {
        let (first, end) = self.rows();
        if self.can_lower() {
            TextState {
                cursor: row_below(self.cursor),
                selection: match self.selection {
                    Some(anchor) => Some(row_below(anchor)),
                    None => None,
                },
                ..self.edited_all(
                    lowered_text(self.lines, first, end),
                    self.lower_chain(end - 1, (end - first) as nat),
                )
            }
        } else {
            self
        }
    }
}

impl TextArea {
    /// The first and the last row that the selection touches, or the
    /// cursor's row twice.
    pub(crate) fn selected_rows(&self) -> (r: (usize, usize))
        requires
            self@.wf(),
        ensures
            r.0 == self@.rows().0,
            r.1 + 1 == self@.rows().1,
            r.0 <= r.1 < self@.lines.len(),
            r.0 <= self@.cursor.row <= r.1,
            self@.selection matches Some(anchor) ==> r.0 <= anchor.row <= r.1,
    {
        match self.selection {
            Some(anchor) => {
                let (start, end) = CursorPosition::ordered(self.cursor, anchor);
                (start.row, end.row)
            },
            None => (self.cursor.row, self.cursor.row),
        }
    }

    /// Moves the rows from `first` to `last` up by one row.
    pub(crate) fn raise_rows(&mut self, first: usize, last: usize)
        requires
            old(self)@.consistent(),
            0 < first <= last < old(self)@.lines.len(),
            old(self)@.cursor.row > 0,
        ensures
            final(self)@.made_by(
                old(self)@,
                old(self)@.raise_chain(first as int, (last - first + 1) as nat),
            ),
            final(self)@ == old(self)@.did_all(
                old(self)@.raise_chain(first as int, (last - first + 1) as nat),
            ),
            final(self)@.lines == raised_text(old(self)@.lines, first as int, last + 1),
            final(self)@.consistent(),
    {
        let ghost before = self@;
        let cursor = self.cursor;
        let up = CursorPosition { row: cursor.row - 1, col: cursor.col };
        let total = self.lines.len();
        let mut row: usize = first;
        proof {
            assert(before.raise_chain(first as int, 0) =~= Seq::empty());
            assert(raised_text(before.lines, first as int, first as int) =~= before.lines);
        }
        while row <= last
            invariant
                0 < first <= row <= last + 1,
                last < total,
                total == before.lines.len(),
                cursor == before.cursor,
                up == row_above(cursor),
                self@ == before.did_all(before.raise_chain(first as int, (row - first) as nat)),
                self@.lines == raised_text(before.lines, first as int, row as int),
                self@.consistent(),
                can_apply(before.lines, before.raise_chain(first as int, (row - first) as nat)),
            decreases last + 1 - row,
        {
            let pair = if row == first {
                (cursor, up)
            } else {
                (up, up)
            };
            let ghost done = before.raise_chain(first as int, (row - first) as nat);
            let ghost action = ActionView::SwapLines {
                lines: (row, (row - 1) as usize),
                cursor: pair,
            };
            proof {
                before.lemma_did_all_step(done, action);
                let longer = before.raise_chain(first as int, (row + 1 - first) as nat);
                assert(longer =~= done.push(action));
                assert(longer.drop_last() =~= done);
                if done.len() == 0 {
                    assert(applied(before.lines, done) == before.lines);
                }
                assert(self@.lines == applied(before.lines, done));
            }
            self.edit_swap_lines(row, row - 1, pair, row > first);
            assert(self@.lines =~= raised_text(before.lines, first as int, row + 1));
            row = row + 1;
        }
    }

    /// Moves the rows from `first` to `last` down by one row.
    pub(crate) fn lower_rows(&mut self, first: usize, last: usize)
        requires
            old(self)@.consistent(),
            first <= last,
            last + 1 < old(self)@.lines.len(),
            old(self)@.cursor.row < old(self)@.lines.len(),
        ensures
            final(self)@.made_by(
                old(self)@,
                old(self)@.lower_chain(last as int, (last - first + 1) as nat),
            ),
            final(self)@ == old(self)@.did_all(
                old(self)@.lower_chain(last as int, (last - first + 1) as nat),
            ),
            final(self)@.lines == lowered_text(old(self)@.lines, first as int, last + 1),
            final(self)@.consistent(),
    {
        let ghost before = self@;
        let cursor = self.cursor;
        let total = self.lines.len();
        let down = CursorPosition { row: cursor.row + 1, col: cursor.col };
        let mut done_rows: usize = 0;
        let count = last - first + 1;
        proof {
            assert(before.lower_chain(last as int, 0) =~= Seq::empty());
            assert(lowered_text(before.lines, last + 1, last + 1) =~= before.lines);
        }
        while done_rows < count
            invariant
                done_rows <= count,
                count == last - first + 1,
                first <= last,
                last + 1 < total,
                total == before.lines.len(),
                cursor == before.cursor,
                down == row_below(cursor),
                self@ == before.did_all(before.lower_chain(last as int, done_rows as nat)),
                self@.lines == lowered_text(before.lines, last + 1 - done_rows, last + 1),
                self@.consistent(),
                can_apply(before.lines, before.lower_chain(last as int, done_rows as nat)),
            decreases count - done_rows,
        {
            let row = last - done_rows;
            let pair = if done_rows == 0 {
                (cursor, down)
            } else {
                (down, down)
            };
            let ghost done = before.lower_chain(last as int, done_rows as nat);
            let ghost action = ActionView::SwapLines {
                lines: (row, (row + 1) as usize),
                cursor: pair,
            };
            proof {
                before.lemma_did_all_step(done, action);
                let longer = before.lower_chain(last as int, (done_rows + 1) as nat);
                assert(longer =~= done.push(action));
                assert(longer.drop_last() =~= done);
                if done.len() == 0 {
                    assert(applied(before.lines, done) == before.lines);
                }
                assert(self@.lines == applied(before.lines, done));
            }
            self.edit_swap_lines(row, row + 1, pair, done_rows > 0);
            assert(self@.lines =~= lowered_text(before.lines, last - done_rows, last + 1));
            done_rows = done_rows + 1;
        }
    }
}

} // verus!
