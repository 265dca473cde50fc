//! Deciding at run time whether an action fits a text.

use crate::history::{block_rows, ActionView, BytePosition, HistoryAction};
use crate::text::{
    byte_len, byte_length, char_count, col_at, column_at, on_boundary, same_text,
    text_of, CharSlice,
};
use vstd::prelude::*;
use vstd::string::*;

verus! {

/// Whether `position` names a row of `lines` and a character boundary of it.
/// Returns the column at that boundary.
fn column_of(lines: &Vec<String>, position: &BytePosition) -> (r: Option<usize>)
    ensures
        match r {
            Some(col) => {
                &&& position.row < lines@.len()
                &&& on_boundary(lines@[position.row as int]@, position.col as int)
                &&& col == col_at(lines@[position.row as int]@, position.col as int)
                &&& col <= lines@[position.row as int]@.len()
            },
            None => !(position.row < lines@.len() && on_boundary(
                lines@[position.row as int]@,
                position.col as int,
            )),
        },
{
    if position.row < lines.len() {
        column_at(lines[position.row].as_str(), position.col)
    } else {
        None
    }
}

/// Where a block that is to be removed ends in the last row that it
/// touches, if it ends on a character boundary of a row of `lines`.
fn block_end(lines: &Vec<String>, block: &Vec<String>, position: &BytePosition) -> (r: Option<
    usize,
>)
    requires
        block@.len() >= 1,
        position.row < lines@.len(),
    ensures
        match r {
            Some(col) => {
                &&& position.row + block@.len() - 1 < lines@.len()
                &&& col == ActionView::removal_end(text_of(lines@), text_of(block@), *position)
                &&& col <= lines@[position.row + block@.len() - 1]@.len()
                &&& if block@.len() == 1 {
                    on_boundary(
                        lines@[position.row as int]@,
                        position.col + byte_len(block@[0]@),
                    )
                } else {
                    on_boundary(
                        lines@[position.row + block@.len() - 1]@,
                        byte_len(block@.last()@) as int,
                    )
                }
            },
            None => !(position.row + block@.len() - 1 < lines@.len() && if block@.len() == 1 {
                on_boundary(lines@[position.row as int]@, position.col + byte_len(block@[0]@))
            } else {
                on_boundary(
                    lines@[position.row + block@.len() - 1]@,
                    byte_len(block@.last()@) as int,
                )
            }),
        },
{
    let rows = lines.len();
    let count = block.len();
    if count - 1 >= rows - position.row {
        return None;
    }
    let last = position.row + (count - 1);
    let width = byte_length(block[count - 1].as_str());
    if count == 1 {
        match position.col.checked_add(width) {
            Some(end) => column_at(lines[last].as_str(), end),
            None => {
                let limit = byte_length(lines[last].as_str());
                proof {
                    let line = lines@[last as int]@;
                    if on_boundary(line, position.col + width) {
                        crate::text::lemma_col_at_boundary(line, position.col + width);
                    }
                }
                None
            },
        }
    } else {
        column_at(lines[last].as_str(), width)
    }
}

impl HistoryAction {
    /// Whether the action can be applied to `lines`.
    pub fn is_applicable(&self, lines: &Vec<String>) -> (r: bool)
        ensures
            r == self@.applicable(text_of(lines@)),
    {
        match self {
            HistoryAction::InsertChar { position, .. } => column_of(lines, position).is_some(),
            HistoryAction::RemoveChar { position, .. } => {
                column_of(lines, position).is_some() && position.col < byte_length(
                    lines[position.row].as_str(),
                )
            },
            HistoryAction::InsertLinebreak { position, .. } => column_of(lines, position).is_some(),
            HistoryAction::RemoveLinebreak { position, .. } => {
                let rows = lines.len();
                position.row < rows && position.row + 1 < rows
            },
            HistoryAction::InsertLines { lines: block, position, .. } => {
                assert(text_of(block@).len() == block@.len());
                block.len() == 0 || column_of(lines, position).is_some()
            },
            HistoryAction::RemoveLines { lines: block, position, .. } => {
                assert(text_of(block@).len() == block@.len());
                if block.len() == 0 {
                    true
                } else if column_of(lines, position).is_some() {
                    let end = block_end(lines, block, position);
                    proof {
                        if block@.len() == 1 {
                            assert(text_of(block@)[0] == block@[0]@);
                        } else {
                            assert(text_of(block@).last() == block@.last()@);
                        }
                    }
                    end.is_some()
                } else {
                    false
                }
            },
            HistoryAction::SwapLines { lines: rows, .. } => rows.0 < lines.len() && rows.1
                < lines.len(),
        }
    }

    /// Whether the action can be applied to `lines` and records of the text
    /// that it removes what `lines` hold there, so that its inverse undoes it.
    pub fn is_reversible(&self, lines: &Vec<String>) -> (r: bool)
        ensures
            r == self@.reversible(text_of(lines@)),
    {
        if !self.is_applicable(lines) {
            return false;
        }
        match self {
            HistoryAction::RemoveChar { char, position, .. } => {
                match column_of(lines, position) {
                    Some(col) => {
                        proof {
                            crate::text::lemma_col_at_boundary(
                                lines@[position.row as int]@,
                                position.col as int,
                            );
                        }
                        lines[position.row].as_str().get_char(col) == *char
                    },
                    None => false,
                }
            },
            HistoryAction::RemoveLinebreak { position, .. } => position.col == byte_length(
                lines[position.row].as_str(),
            ),
            HistoryAction::RemoveLines { lines: block, position, .. } => {
                assert(text_of(block@).len() == block@.len());
                if block.len() == 0 {
                    true
                } else {
                    holds_block(lines, block, position)
                }
            },
            _ => true,
        }
    }
}

/// Whether `lines` hold at `position` the rows that inserting `block` there
/// makes.
#[verifier::loop_isolation(false)]
fn holds_block(lines: &Vec<String>, block: &Vec<String>, position: &BytePosition) -> (r: bool)
    requires
        block@.len() >= 1,
        (ActionView::RemoveLines {
            lines: text_of(block@),
            position: *position,
            cursor: (
                crate::cursor::CursorPosition { row: 0, col: 0 },
                crate::cursor::CursorPosition { row: 0, col: 0 },
            ),
        }).applicable(text_of(lines@)),
    ensures
        r == ({
            let text = text_of(lines@);
            let payload = text_of(block@);
            let row = position.row as int;
            let head = text[row].take(col_at(text[row], position.col as int));
            let tail = text[row + payload.len() - 1].skip(
                ActionView::removal_end(text, payload, *position),
            );
            text.subrange(row, row + payload.len()) == block_rows(head, payload, tail)
        }),
{
    let ghost text = text_of(lines@);
    let ghost payload = text_of(block@);
    let count = block.len();
    let row = position.row;
    assert(payload.len() == count);
    assert(payload[0] == block@[0]@);
    assert(payload.last() == block@[count - 1]@);
    let start = match column_of(lines, position) {
        Some(col) => col,
        None => {
            return false;
        },
    };
    let end = match block_end(lines, block, position) {
        Some(col) => col,
        None => {
            return false;
        },
    };
    let total = lines.len();
    assert(row + count - 1 < total);
    let ghost head = text[row as int].take(start as int);
    let ghost tail = text[row + count - 1].skip(end as int);
    let ghost rows = block_rows(head, payload, tail);
    let ghost held = text.subrange(row as int, row + count);
    let first = lines[row].as_str();
    if count == 1 {
        if start > end {
            proof {
                if held == rows {
                    assert(held[0] == rows[0]);
                    assert(rows[0].len() == start + payload[0].len() + (first@.len() - end));
                }
            }
            return false;
        }
        let same = same_text(first.char_slice(start, end), block[0].as_str());
        proof {
            let middle = first@.subrange(start as int, end as int);
            if same {
                assert(head + payload[0] + tail =~= first@);
                assert(held =~= rows);
            } else {
                if held == rows {
                    assert(held[0] == rows[0]);
                    assert(rows[0].len() == start + payload[0].len() + (first@.len() - end));
                    assert(rows[0].subrange(start as int, end as int) =~= payload[0]);
                }
            }
        }
        return same;
    }
    let width = char_count(first);
    if !same_text(first.char_slice(start, width), block[0].as_str()) {
        proof {
            if held == rows {
                assert(held[0] == rows[0]);
                assert((head + payload[0]).skip(start as int) =~= payload[0]);
            }
        }
        return false;
    }
    assert(first@.skip(start as int) =~= first@.subrange(start as int, width as int));
    assert(head + payload[0] =~= first@);
    let mut i: usize = 1;
    while i < count - 1
        invariant
            1 <= i <= count - 1,
            forall|k: int| 1 <= k < i ==> text[row + k] == payload[k],
        decreases count - i,
    {
        if !same_text(lines[row + i].as_str(), block[i].as_str()) {
            proof {
                if held == rows {
                    assert(held[i as int] == rows[i as int]);
                    assert(rows[i as int] == payload[i as int]);
                }
            }
            return false;
        }
        i = i + 1;
    }
    let last = lines[row + (count - 1)].as_str();
    let same = same_text(last.char_slice(0, end), block[count - 1].as_str());
    proof {
        assert(last@.take(end as int) =~= last@.subrange(0, end as int));
        if same {
            assert(payload.last() + tail =~= last@);
            assert(held =~= rows);
        } else {
            if held == rows {
                assert(held[count - 1] == rows[count - 1]);
                assert(rows[count - 1] == payload.last() + tail);
                assert((payload.last() + tail).len() == last@.len());
                assert((payload.last() + tail).take(end as int) =~= payload.last());
            }
        }
    }
    same
}

} // verus!
