//! Edit actions: the primitives that change the buffer, each of which can be
//! applied and inverted.

use crate::cursor::CursorPosition;
use crate::text::{
    byte_len, byte_length, byte_offset, col_at, on_boundary, text_of, ByteIndex,
};
use vstd::prelude::*;
use vstd::string::*;

verus! {

/// A row and a byte offset into that row's text, taken from a cursor position
/// when an action is built.
#[derive(Debug, Clone, Copy, PartialEq, Eq, Structural)]
pub struct BytePosition {
    pub row: usize,
    pub col: usize,
}

impl BytePosition {
    /// The byte position of `cursor` in `line`, which is the text of the row
    /// that the cursor is on.
    pub fn from_line(cursor: CursorPosition, line: &str) -> (r: BytePosition)
        ensures
            r.row == cursor.row,
            r.col == byte_offset(line@, cursor.col as int),
    {
        BytePosition { row: cursor.row, col: line.byte_index(cursor.col) }
    }
}

/// One primitive change of the buffer. Each carries the cursor before and
/// after it, so that its inverse can put the cursor back.
#[derive(Debug)]
#[allow(inconsistent_fields)]
pub enum HistoryAction {
    InsertChar { char: char, position: BytePosition, cursor: (CursorPosition, CursorPosition) },
    RemoveChar { char: char, position: BytePosition, cursor: (CursorPosition, CursorPosition) },
    InsertLinebreak { position: BytePosition, cursor: (CursorPosition, CursorPosition) },
    RemoveLinebreak { position: BytePosition, cursor: (CursorPosition, CursorPosition) },
    InsertLines {
        lines: Vec<String>,
        position: BytePosition,
        cursor: (CursorPosition, CursorPosition),
    },
    RemoveLines {
        lines: Vec<String>,
        position: BytePosition,
        cursor: (CursorPosition, CursorPosition),
    },
    SwapLines { lines: (usize, usize), cursor: (CursorPosition, CursorPosition) },
}

/// What an action is, with its text as sequences of characters.
#[allow(inconsistent_fields)]
pub enum ActionView {
    InsertChar { char: char, position: BytePosition, cursor: (CursorPosition, CursorPosition) },
    RemoveChar { char: char, position: BytePosition, cursor: (CursorPosition, CursorPosition) },
    InsertLinebreak { position: BytePosition, cursor: (CursorPosition, CursorPosition) },
    RemoveLinebreak { position: BytePosition, cursor: (CursorPosition, CursorPosition) },
    InsertLines {
        lines: Seq<Seq<char>>,
        position: BytePosition,
        cursor: (CursorPosition, CursorPosition),
    },
    RemoveLines {
        lines: Seq<Seq<char>>,
        position: BytePosition,
        cursor: (CursorPosition, CursorPosition),
    },
    SwapLines { lines: (usize, usize), cursor: (CursorPosition, CursorPosition) },
}

impl View for HistoryAction {
    type V = ActionView;

    open spec fn view(&self) -> ActionView {
        match *self {
            HistoryAction::InsertChar { char, position, cursor } => ActionView::InsertChar {
                char,
                position,
                cursor,
            },
            HistoryAction::RemoveChar { char, position, cursor } => ActionView::RemoveChar {
                char,
                position,
                cursor,
            },
            HistoryAction::InsertLinebreak { position, cursor } => ActionView::InsertLinebreak {
                position,
                cursor,
            },
            HistoryAction::RemoveLinebreak { position, cursor } => ActionView::RemoveLinebreak {
                position,
                cursor,
            },
            HistoryAction::InsertLines { lines, position, cursor } => ActionView::InsertLines {
                lines: text_of(lines@),
                position,
                cursor,
            },
            HistoryAction::RemoveLines { lines, position, cursor } => ActionView::RemoveLines {
                lines: text_of(lines@),
                position,
                cursor,
            },
            HistoryAction::SwapLines { lines, cursor } => ActionView::SwapLines { lines, cursor },
        }
    }
}

/// `text` with its `count` rows from `row` on replaced by `rows`.
pub open spec fn splice(
    text: Seq<Seq<char>>,
    row: int,
    count: int,
    rows: Seq<Seq<char>>,
) -> Seq<Seq<char>> {
    text.take(row) + rows + text.skip(row + count)
}

/// The rows that a block of at least one line makes when it is put between
/// `head` and `tail`: a single line joins both; of several lines the first
/// follows `head`, the last precedes `tail`, and those between stand alone.
pub open spec fn block_rows(head: Seq<char>, block: Seq<Seq<char>>, tail: Seq<char>) -> Seq<
    Seq<char>,
> {
    if block.len() == 1 {
        seq![head + block[0] + tail]
    } else {
        seq![head + block.first()] + block.subrange(1, block.len() - 1) + seq![block.last() + tail]
    }
}

impl ActionView {
    /// The cursor recorded for the state before the action.
    pub open spec fn cursor_before(self) -> CursorPosition {
        match self {
            ActionView::InsertChar { cursor, .. } => cursor.0,
            ActionView::RemoveChar { cursor, .. } => cursor.0,
            ActionView::InsertLinebreak { cursor, .. } => cursor.0,
            ActionView::RemoveLinebreak { cursor, .. } => cursor.0,
            ActionView::InsertLines { cursor, .. } => cursor.0,
            ActionView::RemoveLines { cursor, .. } => cursor.0,
            ActionView::SwapLines { cursor, .. } => cursor.0,
        }
    }

    /// The cursor recorded for the state after the action.
    pub open spec fn cursor_after(self) -> CursorPosition {
        match self {
            ActionView::InsertChar { cursor, .. } => cursor.1,
            ActionView::RemoveChar { cursor, .. } => cursor.1,
            ActionView::InsertLinebreak { cursor, .. } => cursor.1,
            ActionView::RemoveLinebreak { cursor, .. } => cursor.1,
            ActionView::InsertLines { cursor, .. } => cursor.1,
            ActionView::RemoveLines { cursor, .. } => cursor.1,
            ActionView::SwapLines { cursor, .. } => cursor.1,
        }
    }

    /// The action that undoes this one: insertion and removal change roles,
    /// a swap swaps back, and the two cursors change places.
    pub open spec fn invert(self) -> ActionView {
        match self {
            ActionView::InsertChar { char, position, cursor } => ActionView::RemoveChar {
                char,
                position,
                cursor: (cursor.1, cursor.0),
            },
            ActionView::RemoveChar { char, position, cursor } => ActionView::InsertChar {
                char,
                position,
                cursor: (cursor.1, cursor.0),
            },
            ActionView::InsertLinebreak { position, cursor } => ActionView::RemoveLinebreak {
                position,
                cursor: (cursor.1, cursor.0),
            },
            ActionView::RemoveLinebreak { position, cursor } => ActionView::InsertLinebreak {
                position,
                cursor: (cursor.1, cursor.0),
            },
            ActionView::InsertLines { lines, position, cursor } => ActionView::RemoveLines {
                lines,
                position,
                cursor: (cursor.1, cursor.0),
            },
            ActionView::RemoveLines { lines, position, cursor } => ActionView::InsertLines {
                lines,
                position,
                cursor: (cursor.1, cursor.0),
            },
            ActionView::SwapLines { lines, cursor } => ActionView::SwapLines {
                lines: (lines.1, lines.0),
                cursor: (cursor.1, cursor.0),
            },
        }
    }

    /// The column at which a removed block ends in the last row that it
    /// touches.
    pub open spec fn removal_end(
        text: Seq<Seq<char>>,
        lines: Seq<Seq<char>>,
        position: BytePosition,
    ) -> int {
        if lines.len() == 1 {
            col_at(text[position.row as int], position.col + byte_len(lines[0]))
        } else {
            col_at(text[position.row + lines.len() - 1], byte_len(lines.last()) as int)
        }
    }

    /// The action addresses rows and character boundaries that `text` has, so
    /// that it can be applied to it.
    pub open spec fn applicable(self, text: Seq<Seq<char>>) -> bool {
        match self {
            ActionView::InsertChar { position, .. } => {
                &&& position.row < text.len()
                &&& on_boundary(text[position.row as int], position.col as int)
            },
            ActionView::RemoveChar { position, .. } => {
                &&& position.row < text.len()
                &&& on_boundary(text[position.row as int], position.col as int)
                &&& position.col < byte_len(text[position.row as int])
            },
            ActionView::InsertLinebreak { position, .. } => {
                &&& position.row < text.len()
                &&& on_boundary(text[position.row as int], position.col as int)
            },
            ActionView::RemoveLinebreak { position, .. } => position.row + 1 < text.len(),
            ActionView::InsertLines { lines, position, .. } => {
                lines.len() > 0 ==> {
                    &&& position.row < text.len()
                    &&& on_boundary(text[position.row as int], position.col as int)
                }
            },
            ActionView::RemoveLines { lines, position, .. } => {
                lines.len() > 0 ==> {
                    &&& position.row + lines.len() - 1 < text.len()
                    &&& on_boundary(text[position.row as int], position.col as int)
                    &&& if lines.len() == 1 {
                        on_boundary(
                            text[position.row as int],
                            position.col + byte_len(lines[0]),
                        )
                    } else {
                        on_boundary(
                            text[position.row + lines.len() - 1],
                            byte_len(lines.last()) as int,
                        )
                    }
                }
            },
            ActionView::SwapLines { lines, .. } => lines.0 < text.len() && lines.1 < text.len(),
        }
    }

    /// The action can be applied to `text`, and what it records of the text
    /// that it removes is what `text` holds there, so that its inverse puts
    /// back exactly what was removed.
    pub open spec fn reversible(self, text: Seq<Seq<char>>) -> bool {
        &&& self.applicable(text)
        &&& match self {
            ActionView::RemoveChar { char, position, .. } => {
                let line = text[position.row as int];
                line[col_at(line, position.col as int)] == char
            },
            ActionView::RemoveLinebreak { position, .. } => position.col == byte_len(
                text[position.row as int],
            ),
            ActionView::RemoveLines { lines, position, .. } => {
                lines.len() > 0 ==> {
                    let row = position.row as int;
                    let head = text[row].take(col_at(text[row], position.col as int));
                    let tail = text[row + lines.len() - 1].skip(
                        Self::removal_end(text, lines, position),
                    );
                    text.subrange(row, row + lines.len()) == block_rows(head, lines, tail)
                }
            },
            _ => true,
        }
    }

    /// The text that applying the action to `text` gives.
    pub open spec fn apply(self, text: Seq<Seq<char>>) -> Seq<Seq<char>> {
        match self {
            ActionView::InsertChar { char, position, .. } => {
                let line = text[position.row as int];
                text.update(
                    position.row as int,
                    line.insert(col_at(line, position.col as int), char),
                )
            },
            ActionView::RemoveChar { position, .. } => {
                let line = text[position.row as int];
                text.update(position.row as int, line.remove(col_at(line, position.col as int)))
            },
            ActionView::InsertLinebreak { position, .. } => {
                let line = text[position.row as int];
                let col = col_at(line, position.col as int);
                splice(text, position.row as int, 1, seq![line.take(col), line.skip(col)])
            },
            ActionView::RemoveLinebreak { position, .. } => {
                let row = position.row as int;
                splice(text, row, 2, seq![text[row] + text[row + 1]])
            },
            ActionView::InsertLines { lines, position, .. } => {
                if lines.len() == 0 {
                    text
                } else {
                    let line = text[position.row as int];
                    let col = col_at(line, position.col as int);
                    splice(
                        text,
                        position.row as int,
                        1,
                        block_rows(line.take(col), lines, line.skip(col)),
                    )
                }
            },
            ActionView::RemoveLines { lines, position, .. } => {
                if lines.len() == 0 {
                    text
                } else {
                    let row = position.row as int;
                    let head = text[row].take(col_at(text[row], position.col as int));
                    let tail = text[row + lines.len() - 1].skip(
                        Self::removal_end(text, lines, position),
                    );
                    splice(text, row, lines.len() as int, seq![head + tail])
                }
            },
            ActionView::SwapLines { lines, .. } => text.update(
                lines.0 as int,
                text[lines.1 as int],
            ).update(lines.1 as int, text[lines.0 as int]),
        }
    }

    /// An action leaves at least one line in a text that had one.
    pub proof fn lemma_apply_keeps_a_line(self, text: Seq<Seq<char>>)
        requires
            self.applicable(text),
            text.len() >= 1,
        ensures
            self.apply(text).len() >= 1,
    {
        match self {
            ActionView::InsertLines { lines, position, cursor } => {
                if lines.len() > 0 {
                    let line = text[position.row as int];
                    let col = col_at(line, position.col as int);
                    lemma_block_bounds(line.take(col), lines, line.skip(col));
                }
            },
            _ => {},
        }
    }

    /// Inverting twice gives the action back.
    pub proof fn lemma_invert_twice(self)
        ensures
            self.invert().invert() == self,
            self.invert().cursor_after() == self.cursor_before(),
            self.invert().cursor_before() == self.cursor_after(),
    {
    }
}

/// Inserting a character at a column leaves that column on a boundary, with
/// the character there.
proof fn lemma_insert_char(line: Seq<char>, col: int, ch: char)
    requires
        0 <= col <= line.len(),
    ensures
        on_boundary(line.insert(col, ch), byte_offset(line, col) as int),
        col_at(line.insert(col, ch), byte_offset(line, col) as int) == col,
        byte_offset(line, col) < byte_len(line.insert(col, ch)),
        line.insert(col, ch)[col] == ch,
        line.insert(col, ch).remove(col) == line,
{
    let new = line.insert(col, ch);
    assert(new.take(col) =~= line.take(col));
    crate::text::lemma_byte_offset_split(line, col);
    crate::text::lemma_prefix_boundary(new, line.take(col));
    crate::text::lemma_byte_offset_increasing(new, col, new.len() as int);
    assert(new.remove(col) =~= line);
}

/// Removing the character at a column leaves that column on a boundary.
proof fn lemma_remove_char(line: Seq<char>, col: int)
    requires
        0 <= col < line.len(),
    ensures
        on_boundary(line.remove(col), byte_offset(line, col) as int),
        col_at(line.remove(col), byte_offset(line, col) as int) == col,
        line.remove(col).insert(col, line[col]) == line,
{
    let new = line.remove(col);
    assert(new.take(col) =~= line.take(col));
    crate::text::lemma_byte_offset_split(line, col);
    crate::text::lemma_prefix_boundary(new, line.take(col));
    assert(new.insert(col, line[col]) =~= line);
}

/// How a line reads once a block has been put in it at a column: where the
/// block starts and where it ends.
proof fn lemma_block_bounds(head: Seq<char>, block: Seq<Seq<char>>, tail: Seq<char>)
    requires
        block.len() >= 1,
    ensures
        block_rows(head, block, tail).len() == block.len(),
        ({
            let rows = block_rows(head, block, tail);
            let first = rows.first();
            let last = rows.last();
            &&& on_boundary(first, byte_len(head) as int)
            &&& col_at(first, byte_len(head) as int) == head.len()
            &&& first.take(head.len() as int) == head
            &&& if block.len() == 1 {
                &&& on_boundary(first, (byte_len(head) + byte_len(block[0])) as int)
                &&& col_at(first, (byte_len(head) + byte_len(block[0])) as int) == head.len()
                    + block[0].len()
                &&& first.skip((head.len() + block[0].len()) as int) == tail
            } else {
                &&& on_boundary(last, byte_len(block.last()) as int)
                &&& col_at(last, byte_len(block.last()) as int) == block.last().len()
                &&& last.skip(block.last().len() as int) == tail
            }
        }),
{
    let rows = block_rows(head, block, tail);
    let first = rows.first();
    let last = rows.last();
    if block.len() == 1 {
        assert(first == head + block[0] + tail);
        assert(first.take(head.len() as int) =~= head);
        crate::text::lemma_prefix_boundary(first, head);
        let mid = head + block[0];
        assert(first.take(mid.len() as int) =~= mid);
        crate::text::lemma_prefix_boundary(first, mid);
        crate::text::lemma_byte_len_concat(head, block[0]);
        assert(first.skip((head.len() + block[0].len()) as int) =~= tail);
    } else {
        assert(first == head + block.first());
        assert(last == block.last() + tail);
        assert(first.take(head.len() as int) =~= head);
        crate::text::lemma_prefix_boundary(first, head);
        assert(last.take(block.last().len() as int) =~= block.last());
        crate::text::lemma_prefix_boundary(last, block.last());
        assert(last.skip(block.last().len() as int) =~= tail);
    }
}

impl ActionView {
    /// Removing a block right after inserting it, at the same position, gives
    /// the text back.
    pub proof fn lemma_insert_then_remove(
        text: Seq<Seq<char>>,
        lines: Seq<Seq<char>>,
        position: BytePosition,
        cursor: (CursorPosition, CursorPosition),
    )
        requires
            (ActionView::InsertLines { lines, position, cursor }).applicable(text),
        ensures
            ({
                let insert = ActionView::InsertLines { lines, position, cursor };
                let remove = ActionView::RemoveLines { lines, position, cursor };
                &&& remove.reversible(insert.apply(text))
                &&& remove.apply(insert.apply(text)) == text
            }),
    {
        let insert = ActionView::InsertLines { lines, position, cursor };
        let remove = ActionView::RemoveLines { lines, position, cursor };
        if lines.len() > 0 {
            let row = position.row as int;
            let line = text[row];
            let col = col_at(line, position.col as int);
            crate::text::lemma_col_at_boundary(line, position.col as int);
            crate::text::lemma_byte_offset_split(line, col);
            let head = line.take(col);
            let tail = line.skip(col);
            let rows = block_rows(head, lines, tail);
            let after = insert.apply(text);
            lemma_block_bounds(head, lines, tail);
            assert(after == splice(text, row, 1, rows));
            assert(after.subrange(row, row + lines.len()) =~= rows);
            assert(after[row] == rows.first());
            assert(after[row + lines.len() - 1] == rows.last());
            assert(head + tail =~= line);
            assert(splice(after, row, lines.len() as int, seq![head + tail]) =~= text);
        }
    }

    /// Applying a reversible action and then its inverse gives the text back,
    /// and the inverse is itself reversible on the text that the action gave.
    pub proof fn lemma_inverse(self, text: Seq<Seq<char>>)
        requires
            self.reversible(text),
        ensures
            self.invert().reversible(self.apply(text)),
            self.invert().apply(self.apply(text)) == text,
    {
        match self {
            ActionView::InsertChar { char, position, cursor } => {
                let line = text[position.row as int];
                let col = col_at(line, position.col as int);
                crate::text::lemma_col_at_boundary(line, position.col as int);
                lemma_insert_char(line, col, char);
                assert(self.invert().apply(self.apply(text)) =~= text);
            },
            ActionView::RemoveChar { char, position, cursor } => {
                let line = text[position.row as int];
                let col = col_at(line, position.col as int);
                crate::text::lemma_col_at_boundary(line, position.col as int);
                lemma_remove_char(line, col);
                assert(self.invert().apply(self.apply(text)) =~= text);
            },
            ActionView::InsertLinebreak { position, cursor } => {
                let row = position.row as int;
                let line = text[row];
                let col = col_at(line, position.col as int);
                crate::text::lemma_col_at_boundary(line, position.col as int);
                crate::text::lemma_byte_offset_split(line, col);
                let after = self.apply(text);
                assert(after[row] == line.take(col));
                assert(after[row + 1] == line.skip(col));
                assert(line.take(col) + line.skip(col) =~= line);
                assert(self.invert().apply(after) =~= text);
            },
            ActionView::RemoveLinebreak { position, cursor } => {
                let row = position.row as int;
                let a = text[row];
                let b = text[row + 1];
                let after = self.apply(text);
                assert(after[row] == a + b);
                assert((a + b).take(a.len() as int) =~= a);
                assert((a + b).skip(a.len() as int) =~= b);
                crate::text::lemma_prefix_boundary(a + b, a);
                assert(self.invert().apply(after) =~= text);
            },
            ActionView::InsertLines { lines, position, cursor } => {
                Self::lemma_insert_then_remove(text, lines, position, (cursor.1, cursor.0));
            },
            ActionView::RemoveLines { lines, position, cursor } => {
                if lines.len() > 0 {
                    let row = position.row as int;
                    let col = col_at(text[row], position.col as int);
                    crate::text::lemma_col_at_boundary(text[row], position.col as int);
                    crate::text::lemma_byte_offset_split(text[row], col);
                    let head = text[row].take(col);
                    let tail = text[row + lines.len() - 1].skip(
                        Self::removal_end(text, lines, position),
                    );
                    let after = self.apply(text);
                    let joined = head + tail;
                    assert(after[row] == joined);
                    assert(joined.take(head.len() as int) =~= head);
                    assert(joined.skip(head.len() as int) =~= tail);
                    crate::text::lemma_prefix_boundary(joined, head);
                    assert(text =~= text.take(row) + text.subrange(row, row + lines.len())
                        + text.skip(row + lines.len()));
                    assert(self.invert().apply(after) =~= text);
                }
            },
            ActionView::SwapLines { lines, cursor } => {
                assert(self.invert().apply(self.apply(text)) =~= text);
            },
        }
    }
}

impl HistoryAction {
    /// The action that undoes this one.
    pub fn invert(self) -> (r: HistoryAction)
        ensures
            r@ == self@.invert(),
    {
        match self {
            HistoryAction::InsertChar { char, position, cursor } => HistoryAction::RemoveChar {
                char,
                position,
                cursor: (cursor.1, cursor.0),
            },
            HistoryAction::RemoveChar { char, position, cursor } => HistoryAction::InsertChar {
                char,
                position,
                cursor: (cursor.1, cursor.0),
            },
            HistoryAction::InsertLinebreak { position, cursor } => HistoryAction::RemoveLinebreak {
                position,
                cursor: (cursor.1, cursor.0),
            },
            HistoryAction::RemoveLinebreak { position, cursor } => HistoryAction::InsertLinebreak {
                position,
                cursor: (cursor.1, cursor.0),
            },
            HistoryAction::InsertLines { lines, position, cursor } => HistoryAction::RemoveLines {
                lines,
                position,
                cursor: (cursor.1, cursor.0),
            },
            HistoryAction::RemoveLines { lines, position, cursor } => HistoryAction::InsertLines {
                lines,
                position,
                cursor: (cursor.1, cursor.0),
            },
            HistoryAction::SwapLines { lines, cursor } => HistoryAction::SwapLines {
                lines: (lines.1, lines.0),
                cursor: (cursor.1, cursor.0),
            },
        }
    }

    /// Applies the action to `lines` and returns the cursor that it records
    /// for the state after it.
    pub fn apply(&self, lines: &mut Vec<String>) -> (c: CursorPosition)
        requires
            self@.applicable(text_of(old(lines)@)),
        ensures
            text_of(final(lines)@) == self@.apply(text_of(old(lines)@)),
            c == self@.cursor_after(),
    {
        let ghost before = text_of(lines@);
        let total = lines.len();
        assert(total == before.len());
        match self {
            HistoryAction::InsertChar { char, position, cursor } => {
                lines[position.row].insert(position.col, *char);
                assert(text_of(lines@) =~= self@.apply(before));
                cursor.1
            },
            HistoryAction::RemoveChar { char, position, cursor } => {
                let _ = lines[position.row].remove(position.col);
                assert(text_of(lines@) =~= self@.apply(before));
                cursor.1
            },
            HistoryAction::InsertLinebreak { position, cursor } => {
                let tail = lines[position.row].split_off(position.col);
                lines.insert(position.row + 1, tail);
                assert(text_of(lines@) =~= self@.apply(before));
                cursor.1
            },
            HistoryAction::RemoveLinebreak { position, cursor } => {
                let next = lines.remove(position.row + 1);
                lines[position.row].append(next.as_str());
                assert(text_of(lines@) =~= self@.apply(before));
                cursor.1
            },
            HistoryAction::InsertLines { lines: block, position, cursor } => {
                insert_block(lines, block, *position);
                cursor.1
            },
            HistoryAction::RemoveLines { lines: block, position, cursor } => {
                remove_block(lines, block, *position);
                cursor.1
            },
            HistoryAction::SwapLines { lines: rows, cursor } => {
                let first = lines[rows.0].clone();
                let second = lines[rows.1].clone();
                lines[rows.0] = second;
                lines[rows.1] = first;
                assert(text_of(lines@) =~= self@.apply(before));
                cursor.1
            },
        }
    }
}

/// Puts `block` into `lines` at `position`.
fn insert_block(lines: &mut Vec<String>, block: &Vec<String>, position: BytePosition)
    requires
        block.len() > 0 ==> {
            &&& position.row < old(lines).len()
            &&& on_boundary(old(lines)[position.row as int]@, position.col as int)
        },
    ensures
        text_of(final(lines)@) == (ActionView::InsertLines {
            lines: text_of(block@),
            position,
            cursor: (CursorPosition { row: 0, col: 0 }, CursorPosition { row: 0, col: 0 }),
        }).apply(text_of(old(lines)@)),
{
    let ghost before = text_of(lines@);
    let ghost payload = text_of(block@);
    let count = block.len();
    let total = lines.len();
    assert(total == before.len());
    if count == 0 {
        assert(text_of(lines@) =~= before);
    } else if count == 1 {
        lines[position.row].insert_str(position.col, block[0].as_str());
        assert(text_of(lines@) =~= splice(
            before,
            position.row as int,
            1,
            block_rows(
                before[position.row as int].take(
                    col_at(before[position.row as int], position.col as int),
                ),
                payload,
                before[position.row as int].skip(
                    col_at(before[position.row as int], position.col as int),
                ),
            ),
        ));
    } else {
        let row = position.row;
        let ghost line = before[row as int];
        let ghost col = col_at(line, position.col as int);
        let ghost head = line.take(col);
        let ghost rest = line.skip(col);
        let tail = lines[row].split_off(position.col);
        lines[row].append(block[0].as_str());
        let mut i: usize = 1;
        while i < count - 1
            invariant
                1 <= i <= count - 1,
                count == block.len(),
                count >= 2,
                payload == text_of(block@),
                row < before.len(),
                before.len() == total,
                lines.len() == total + i - 1,
                text_of(lines@) == before.take(row as int) + seq![head + payload[0]]
                    + payload.subrange(1, i as int) + before.skip(row + 1),
            decreases count - i,
        {
            let ghost prev = text_of(lines@);
            lines.insert(row + i, block[i].clone());
            assert(text_of(lines@) =~= prev.insert(row + i, payload[i as int]));
            assert(payload.subrange(1, i + 1) =~= payload.subrange(1, i as int).push(
                payload[i as int],
            ));
            assert(text_of(lines@) =~= before.take(row as int) + seq![head + payload[0]]
                + payload.subrange(1, i + 1) + before.skip(row + 1));
            i = i + 1;
        }
        let ghost prev = text_of(lines@);
        assert(lines.len() == total + count - 2);
        let mut last = block[count - 1].clone();
        last.append(tail.as_str());
        lines.insert(row + (count - 1), last);
        assert(text_of(lines@) =~= prev.insert(row + count - 1, payload.last() + rest));
        assert(text_of(lines@) =~= splice(before, row as int, 1, block_rows(head, payload, rest)));
    }
}

/// Takes `block` out of `lines` at `position`.
fn remove_block(lines: &mut Vec<String>, block: &Vec<String>, position: BytePosition)
    requires
        (ActionView::RemoveLines {
            lines: text_of(block@),
            position,
            cursor: (CursorPosition { row: 0, col: 0 }, CursorPosition { row: 0, col: 0 }),
        }).applicable(text_of(old(lines)@)),
    ensures
        text_of(final(lines)@) == (ActionView::RemoveLines {
            lines: text_of(block@),
            position,
            cursor: (CursorPosition { row: 0, col: 0 }, CursorPosition { row: 0, col: 0 }),
        }).apply(text_of(old(lines)@)),
{
    let ghost before = text_of(lines@);
    let ghost payload = text_of(block@);
    let count = block.len();
    let row = position.row;
    let total = lines.len();
    assert(total == before.len());
    if count == 0 {
        assert(text_of(lines@) =~= before);
    } else if count == 1 {
        let width = byte_length(block[0].as_str());
        let line_len = byte_length(lines[row].as_str());
        proof {
            crate::text::lemma_col_at_boundary(before[row as int], position.col + width);
        }
        let tail = lines[row].split_off(position.col + width);
        proof {
            let line = before[row as int];
            let start = col_at(line, position.col as int);
            let end = col_at(line, position.col + width);
            crate::text::lemma_col_at_boundary(line, position.col as int);
            crate::text::lemma_col_at_boundary(line, position.col + width);
            if end < start {
                crate::text::lemma_byte_offset_increasing(line, end, start);
            }
            assert(line.take(end).take(start) =~= line.take(start));
            crate::text::lemma_byte_offset_split(line, start);
            crate::text::lemma_prefix_boundary(line.take(end), line.take(start));
        }
        let _ = lines[row].split_off(position.col);
        lines[row].append(tail.as_str());
        assert(text_of(lines@) =~= splice(
            before,
            row as int,
            1,
            seq![
                before[row as int].take(col_at(before[row as int], position.col as int))
                    + before[row as int].skip(
                    col_at(before[row as int], position.col + byte_len(payload[0])),
                ),
            ],
        ));
    } else {
        let ghost head = before[row as int].take(col_at(before[row as int], position.col as int));
        let ghost end = col_at(before[row + count - 1], byte_len(payload.last()) as int);
        let ghost rest = before[row + count - 1].skip(end);
        let mut last_row = lines.remove(row + (count - 1));
        assert(last_row@ == before[row + count - 1]);
        let width = byte_length(block[count - 1].as_str());
        assert(payload.last() == block[count - 1]@);
        let tail = last_row.split_off(width);
        assert(tail@ == rest);
        let mut i: usize = 0;
        while i < count - 2
            invariant
                i <= count - 2,
                count >= 2,
                row + count - 1 < before.len(),
                before.len() == total,
                lines.len() == total - 1 - i,
                text_of(lines@) == before.take(row + 1) + before.subrange(
                    row + 1 + i,
                    row + count - 1,
                ) + before.skip(row + count),
            decreases count - i,
        {
            let ghost prev = text_of(lines@);
            let _ = lines.remove(row + 1);
            assert(text_of(lines@) =~= prev.remove(row + 1));
            assert(text_of(lines@) =~= before.take(row + 1) + before.subrange(
                row + 1 + i + 1,
                row + count - 1,
            ) + before.skip(row + count));
            i = i + 1;
        }
        assert(text_of(lines@) =~= before.take(row + 1) + before.skip(row + count));
        assert(text_of(lines@)[row as int] == before[row as int]);
        let ghost prev = text_of(lines@);
        let _ = lines[row].split_off(position.col);
        lines[row].append(tail.as_str());
        assert(text_of(lines@) =~= prev.update(row as int, head + rest));
        assert(text_of(lines@) =~= splice(before, row as int, count as int, seq![head + rest]));
    }
}

} // verus!
