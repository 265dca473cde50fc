//! Indenting and outdenting rows.

use crate::cursor::CursorPosition;
use crate::history::{ActionView, BytePosition};
use crate::indent::Indent;
use crate::state::{applied, can_apply, lemma_with_block, TextState};
use crate::text::{char_count, same_text, text_of, CharSlice};
use crate::textarea::TextArea;
use vstd::prelude::*;
use vstd::string::*;

verus! {

/// Whether `line` begins with `unit`.
pub open spec fn starts_with(line: Seq<char>, unit: Seq<char>) -> bool {
    unit.len() <= line.len() && line.take(unit.len() as int) == unit
}

/// The action that puts one unit of indentation at the start of `row`.
pub open spec fn indent_action(
    indent: Indent,
    row: usize,
    cursor: (CursorPosition, CursorPosition),
) -> ActionView {
    let position = BytePosition { row, col: 0 };
    match indent {
        Indent::Tabs => ActionView::InsertChar { char: '\t', position, cursor },
        Indent::Spaces(run) => ActionView::InsertLines { lines: seq![run@], position, cursor },
    }
}

/// The action that takes one unit of indentation from the start of `row`.
pub open spec fn outdent_action(
    indent: Indent,
    row: usize,
    cursor: (CursorPosition, CursorPosition),
) -> ActionView {
    let position = BytePosition { row, col: 0 };
    match indent {
        Indent::Tabs => ActionView::RemoveChar { char: '\t', position, cursor },
        Indent::Spaces(run) => ActionView::RemoveLines { lines: seq![run@], position, cursor },
    }
}

/// `text` with `unit` put at the start of each row from `first` up to, not
/// including, `end`.
pub open spec fn indented_text(text: Seq<Seq<char>>, unit: Seq<char>, first: int, end: int) -> Seq<
    Seq<char>,
> {
    Seq::new(
        text.len(),
        |r: int|
            if first <= r < end {
                unit + text[r]
            } else {
                text[r]
            },
    )
}

/// `text` with `unit` taken from the start of each row from `first` up to,
/// not including, `end` that begins with it.
pub open spec fn outdented_text(text: Seq<Seq<char>>, unit: Seq<char>, first: int, end: int) -> Seq<
    Seq<char>,
> {
    Seq::new(
        text.len(),
        |r: int|
            if first <= r < end && starts_with(text[r], unit) {
                text[r].skip(unit.len() as int)
            } else {
                text[r]
            },
    )
}

/// The position `by` columns to the right of `at`.
pub open spec fn shifted_right(at: CursorPosition, by: nat) -> CursorPosition {
    CursorPosition { row: at.row, col: (at.col + by) as usize }
}

/// The position `by` columns to the left of `at`, or at the start of the row.
pub open spec fn shifted_left(at: CursorPosition, by: nat) -> CursorPosition {
    CursorPosition {
        row: at.row,
        col: if at.col >= by {
            (at.col - by) as usize
        } else {
            0
        },
    }
}

impl TextState {
    /// The rows that indenting and outdenting work on: those that the
    /// selection touches, or the cursor's row.
    pub open spec fn rows(self) -> (int, int) {
        match self.selection {
            Some(anchor) => (self.selection_ends().0.row as int, self.selection_ends().1.row + 1),
            None => (self.cursor.row as int, self.cursor.row + 1),
        }
    }

    /// The cursors that the action on `row` records when the rows are worked
    /// on from the top down and the cursor goes from `self.cursor` to `after`
    /// as its own row is reached.
    pub open spec fn cursors_at(self, row: int, after: CursorPosition) -> (
        CursorPosition,
        CursorPosition,
    ) {
        if row < self.cursor.row {
            (self.cursor, self.cursor)
        } else if row == self.cursor.row {
            (self.cursor, after)
        } else {
            (after, after)
        }
    }

    /// The actions that indent the `count` rows from `first` on.
    pub open spec fn indent_chain(self, first: int, count: nat) -> Seq<ActionView> {
        let after = shifted_right(self.cursor, self.indent.unit().len());
        Seq::new(
            count,
            |i: int|
                indent_action(
                    self.indent,
                    (first + i) as usize,
                    self.cursors_at(first + i, after),
                ),
        )
    }

    /// The state after Tab. Without a selection one unit of indentation is
    /// inserted at the cursor. With one, each row that it touches gets one
    /// unit at its start, as one logical edit. Cursor and selection move
    /// right by the width of the unit.
    pub open spec fn indented(self) -> TextState {
        let step = self.indent.unit().len();
        let after = shifted_right(self.cursor, step);
        match self.selection {
            None => {
                let position = crate::state::byte_position(self.lines, self.cursor);
                let cursor = (self.cursor, after);
                let line = self.lines[self.cursor.row as int];
                self.edited(
                    self.lines.update(
                        self.cursor.row as int,
                        line.take(self.cursor.col as int) + self.indent.unit() + line.skip(
                            self.cursor.col as int,
                        ),
                    ),
                    match self.indent {
                        Indent::Tabs => ActionView::InsertChar { char: '\t', position, cursor },
                        Indent::Spaces(run) => ActionView::InsertLines {
                            lines: seq![run@],
                            position,
                            cursor,
                        },
                    },
                    false,
                ).placed(after)
            },
            Some(anchor) => {
                let (first, end) = self.rows();
                TextState {
                    cursor: after,
                    selection: Some(shifted_right(anchor, step)),
                    ..self.edited_all(
                        indented_text(self.lines, self.indent.unit(), first, end),
                        self.indent_chain(first, (end - first) as nat),
                    )
                }
            },
        }
    }

    /// Where the cursor stands after outdenting: left by the width of the
    /// unit where its row begins with the unit.
    pub open spec fn outdent_cursor(self) -> CursorPosition {
        if starts_with(self.lines[self.cursor.row as int], self.indent.unit()) {
            shifted_left(self.cursor, self.indent.unit().len())
        } else {
            self.cursor
        }
    }

    /// The actions that outdent those of the `count` rows from `first` on
    /// that begin with the unit of indentation.
    pub open spec fn outdent_chain(self, first: int, count: nat) -> Seq<ActionView>
        decreases count,
    {
        if count == 0 {
            Seq::empty()
        } else {
            let row = first + count - 1;
            let before = self.outdent_chain(first, (count - 1) as nat);
            if starts_with(self.lines[row], self.indent.unit()) {
                before.push(
                    outdent_action(
                        self.indent,
                        row as usize,
                        self.cursors_at(row, self.outdent_cursor()),
                    ),
                )
            } else {
                before
            }
        }
    }

    /// The state after Back-Tab: each row that the selection touches, or the
    /// cursor's row, loses one unit of indentation where it begins with one,
    /// all as one logical edit. Cursor and selection move left by the width
    /// of the unit where their rows have changed. Where no row begins with
    /// the unit, nothing changes.
    pub open spec fn outdented(self) -> TextState {
        let (first, end) = self.rows();
        let unit = self.indent.unit();
        TextState {
            cursor: self.outdent_cursor(),
            selection: match self.selection {
                Some(anchor) => Some(
                    if starts_with(self.lines[anchor.row as int], unit) {
                        shifted_left(anchor, unit.len())
                    } else {
                        anchor
                    },
                ),
                None => None,
            },
            ..self.edited_all(
                outdented_text(self.lines, unit, first, end),
                self.outdent_chain(first, (end - first) as nat),
            )
        }
    }

    /// Whether Back-Tab changes anything: whether a row that it works on
    /// begins with the unit of indentation.
    pub open spec fn outdent_changes(self) -> bool {
        self.outdent_chain(self.rows().0, (self.rows().1 - self.rows().0) as nat).len() > 0
    }
}

impl TextArea {
    /// Whether row `row` begins with the unit of indentation.
    pub(crate) fn row_is_indented(&self, row: usize) -> (r: bool)
        requires
            row < self@.lines.len(),
        ensures
            r == starts_with(self@.lines[row as int], self@.indent.unit()),
    {
        let line = self.lines[row].as_str();
        match &self.indent {
            Indent::Tabs => {
                if line.is_empty() {
                    false
                } else {
                    let first = line.get_char(0);
                    assert(line@.take(1)[0] == line@[0]);
                    assert(seq!['\t'][0] == '\t');
                    assert(first == '\t' ==> line@.take(1) =~= seq!['\t']);
                    first == '\t'
                }
            },
            Indent::Spaces(run) => {
                let width = char_count(run.as_str());
                if char_count(line) < width {
                    false
                } else {
                    let head = line.char_slice(0, width);
                    assert(head@ =~= line@.take(width as int));
                    same_text(head, run.as_str())
                }
            },
        }
    }

    /// Puts one unit of indentation at the start of `row`.
    pub(crate) fn indent_row(
        &mut self,
        row: usize,
        cursor: (CursorPosition, CursorPosition),
        chain: bool,
    )
        requires
            old(self)@.consistent(),
            row < old(self)@.lines.len(),
        ensures
            final(self)@ == old(self)@.did(indent_action(old(self)@.indent, row, cursor), chain),
            indent_action(old(self)@.indent, row, cursor).reversible(old(self)@.lines),
            final(self)@.consistent(),
            final(self)@.lines == old(self)@.lines.update(
                row as int,
                old(self)@.indent.unit() + old(self)@.lines[row as int],
            ),
    {
        let at = CursorPosition { row, col: 0 };
        let ghost line = self@.lines[row as int];
        match &self.indent {
            Indent::Tabs => {
                self.edit_insert_char(at, '\t', cursor, chain);
                assert(line.insert(0, '\t') =~= seq!['\t'] + line);
            },
            Indent::Spaces(run) => {
                let mut block: Vec<String> = Vec::new();
                block.push(run.clone());
                proof {
                    assert(text_of(block@) =~= seq![run@]);
                    lemma_with_block(self@.lines, at, text_of(block@));
                    assert(line.take(0) + run@ + line.skip(0) =~= run@ + line);
                }
                self.edit_insert_block(at, block, cursor, chain);
                assert(self@.lines =~= old(self)@.lines.update(row as int, run@ + line));
            },
        }
    }

    /// Takes one unit of indentation from the start of `row`, which begins
    /// with one.
    pub(crate) fn outdent_row(
        &mut self,
        row: usize,
        cursor: (CursorPosition, CursorPosition),
        chain: bool,
    )
        requires
            old(self)@.consistent(),
            row < old(self)@.lines.len(),
            starts_with(old(self)@.lines[row as int], old(self)@.indent.unit()),
        ensures
            final(self)@ == old(self)@.did(outdent_action(old(self)@.indent, row, cursor), chain),
            outdent_action(old(self)@.indent, row, cursor).reversible(old(self)@.lines),
            final(self)@.consistent(),
            final(self)@.lines == old(self)@.lines.update(
                row as int,
                old(self)@.lines[row as int].skip(old(self)@.indent.unit().len() as int),
            ),
    {
        let at = CursorPosition { row, col: 0 };
        let ghost line = self@.lines[row as int];
        match &self.indent {
            Indent::Tabs => {
                assert(line.take(1)[0] == line[0]);
                assert(seq!['\t'][0] == '\t');
                self.edit_remove_char(at, cursor, chain);
                assert(line.remove(0) =~= line.skip(1));
            },
            Indent::Spaces(run) => {
                let end = CursorPosition { row, col: char_count(run.as_str()) };
                proof {
                    assert(line.subrange(0, end.col as int) =~= run@);
                    assert(line.take(0) + line.skip(end.col as int) =~= line.skip(end.col as int));
                    assert(crate::state::span_text(self@.lines, at, end) =~= seq![run@]);
                }
                self.edit_remove_span(at, end, cursor, chain);
                assert(self@.lines =~= old(self)@.lines.update(
                    row as int,
                    line.skip(end.col as int),
                ));
            },
        }
    }

    /// Indents the rows from `first` to `last`, as one logical edit. `after`
    /// is where the cursor stands once its own row has been indented.
    pub(crate) fn indent_rows(&mut self, first: usize, last: usize, after: CursorPosition)
        requires
            old(self)@.consistent(),
            first <= last < old(self)@.lines.len(),
            after == shifted_right(old(self)@.cursor, old(self)@.indent.unit().len()),
        ensures
            final(self)@.made_by(
                old(self)@,
                old(self)@.indent_chain(first as int, (last - first + 1) as nat),
            ),
            final(self)@ == old(self)@.did_all(
                old(self)@.indent_chain(first as int, (last - first + 1) as nat),
            ),
            final(self)@.lines == indented_text(
                old(self)@.lines,
                old(self)@.indent.unit(),
                first as int,
                last + 1,
            ),
            final(self)@.consistent(),
    {
        let ghost before = self@;
        let ghost unit = before.indent.unit();
        let cursor = self.cursor;
        let total = self.lines.len();
        let mut row: usize = first;
        proof {
            assert(before.indent_chain(first as int, 0) =~= Seq::empty());
            assert(indented_text(before.lines, unit, first as int, first as int) =~= before.lines);
        }
        while row <= last
            invariant
                first <= row <= last + 1,
                last < total,
                total == before.lines.len(),
                unit == before.indent.unit(),
                cursor == before.cursor,
                after == shifted_right(before.cursor, unit.len()),
                self@ == before.did_all(before.indent_chain(first as int, (row - first) as nat)),
                self@.lines == indented_text(before.lines, unit, first as int, row as int),
                self@.consistent(),
                can_apply(before.lines, before.indent_chain(first as int, (row - first) as nat)),
            decreases last + 1 - row,
        {
            let pair = if row < cursor.row {
                (cursor, cursor)
            } else if row == cursor.row {
                (cursor, after)
            } else {
                (after, after)
            };
            let ghost done = before.indent_chain(first as int, (row - first) as nat);
            let ghost action = indent_action(before.indent, row, pair);
            proof {
                before.lemma_did_all_step(done, action);
                let longer = before.indent_chain(first as int, (row + 1 - first) as nat);
                assert(longer =~= done.push(action));
                assert(longer.drop_last() =~= done);
                if done.len() == 0 {
                    assert(self@ == before);
                    assert(applied(before.lines, done) == before.lines);
                }
                assert(self@.lines == applied(before.lines, done));
            }
            self.indent_row(row, pair, row > first);
            assert(self@.lines =~= indented_text(before.lines, unit, first as int, row + 1));
            row = row + 1;
        }
    }

    /// The position `by` columns to the left of `at` where the row of `at`
    /// begins with the unit of indentation, else `at`.
    pub(crate) fn outdent_position(&self, at: CursorPosition, by: usize) -> (r: CursorPosition)
        requires
            at.row < self@.lines.len(),
            by == self@.indent.unit().len(),
        ensures
            r == if starts_with(self@.lines[at.row as int], self@.indent.unit()) {
                shifted_left(at, by as nat)
            } else {
                at
            },
    {
        if self.row_is_indented(at.row) {
            CursorPosition {
                row: at.row,
                col: if at.col >= by {
                    at.col - by
                } else {
                    0
                },
            }
        } else {
            at
        }
    }

    /// Outdents those of the rows from `first` to `last` that begin with the
    /// unit of indentation, as one logical edit. `after` is where the cursor
    /// stands once its own row has been worked on. Returns whether any row
    /// has changed.
    pub(crate) fn outdent_rows(
        &mut self,
        first: usize,
        last: usize,
        after: CursorPosition,
    ) -> (changed: bool)
        requires
            old(self)@.consistent(),
            first <= last < old(self)@.lines.len(),
            first <= old(self)@.cursor.row <= last,
            after == old(self)@.outdent_cursor(),
        ensures
            changed ==> {
                let chain = old(self)@.outdent_chain(first as int, (last - first + 1) as nat);
                &&& final(self)@.made_by(old(self)@, chain)
                &&& chain[0].cursor_before() == old(self)@.cursor
                &&& chain.last().cursor_after() == after
            },
            final(self)@ == old(self)@.did_all(
                old(self)@.outdent_chain(first as int, (last - first + 1) as nat),
            ),
            final(self)@.lines == outdented_text(
                old(self)@.lines,
                old(self)@.indent.unit(),
                first as int,
                last + 1,
            ),
            final(self)@.consistent(),
            changed == (old(self)@.outdent_chain(first as int, (last - first + 1) as nat).len()
                > 0),
    {
        let ghost before = self@;
        let ghost unit = before.indent.unit();
        let cursor = self.cursor;
        let total = self.lines.len();
        let mut row: usize = first;
        let mut changed = false;
        proof {
            assert(outdented_text(before.lines, unit, first as int, first as int) =~= before.lines);
        }
        while row <= last
            invariant
                first <= row <= last + 1,
                last < total,
                total == before.lines.len(),
                unit == before.indent.unit(),
                cursor == before.cursor,
                after == before.outdent_cursor(),
                self@ == before.did_all(before.outdent_chain(first as int, (row - first) as nat)),
                self@.lines == outdented_text(before.lines, unit, first as int, row as int),
                self@.consistent(),
                changed == (before.outdent_chain(first as int, (row - first) as nat).len() > 0),
                can_apply(before.lines, before.outdent_chain(first as int, (row - first) as nat)),
                first <= cursor.row <= last,
                !changed && row > cursor.row ==> after == cursor,
                changed ==> {
                    let chain = before.outdent_chain(first as int, (row - first) as nat);
                    &&& chain[0].cursor_before() == cursor
                    &&& chain.last().cursor_after() == if row > cursor.row {
                        after
                    } else {
                        cursor
                    }
                },
            decreases last + 1 - row,
        {
            let ghost done = before.outdent_chain(first as int, (row - first) as nat);
            assert(self@.lines[row as int] == before.lines[row as int]);
            assert(self@.indent == before.indent) by {
                if done.len() == 0 {
                    assert(self@ == before);
                }
            }
            if self.row_is_indented(row) {
                let pair = if row < cursor.row {
                    (cursor, cursor)
                } else if row == cursor.row {
                    (cursor, after)
                } else {
                    (after, after)
                };
                let ghost action = outdent_action(before.indent, row, pair);
                proof {
                    before.lemma_did_all_step(done, action);
                    let longer = before.outdent_chain(first as int, (row + 1 - first) as nat);
                    assert(longer == done.push(action));
                    assert(longer.drop_last() =~= done);
                    if done.len() == 0 {
                        assert(applied(before.lines, done) == before.lines);
                    }
                    assert(self@.lines == applied(before.lines, done));
                }
                self.outdent_row(row, pair, changed);
                changed = true;
            } else {
                assert(before.outdent_chain(first as int, (row + 1 - first) as nat) == done);
            }
            assert(self@.lines =~= outdented_text(before.lines, unit, first as int, row + 1));
            row = row + 1;
        }
        changed
    }

    /// Puts one unit of indentation in at the cursor, which goes to `after`.
    pub(crate) fn indent_here(&mut self, after: CursorPosition)
        requires
            old(self)@.wf(),
            old(self)@.selection is None,
            after == shifted_right(old(self)@.cursor, old(self)@.indent.unit().len()),
        ensures
            final(self)@ == old(self)@.indented(),
            final(self)@.wf(),
            final(self)@.is_one_edit_of(old(self)@),
    {
        let ghost before = self@;
        let cursor = self.cursor;
        let ghost line = before.lines[cursor.row as int];
        match &self.indent {
            Indent::Tabs => {
                self.edit_insert_char(cursor, '\t', (cursor, after), false);
                assert(line.insert(cursor.col as int, '\t') =~= line.take(cursor.col as int)
                    + seq!['\t'] + line.skip(cursor.col as int));
            },
            Indent::Spaces(run) => {
                let mut block: Vec<String> = Vec::new();
                block.push(run.clone());
                proof {
                    assert(text_of(block@) =~= seq![run@]);
                    lemma_with_block(self@.lines, cursor, text_of(block@));
                }
                self.edit_insert_block(cursor, block, (cursor, after), false);
                assert(self@.lines =~= before.lines.update(
                    cursor.row as int,
                    line.take(cursor.col as int) + run@ + line.skip(cursor.col as int),
                ));
            },
        }
        let ghost action = self@.undo.last().0;
        self.cursor = after;
        proof {
            self@.lemma_made_by_first(before, action);
            self@.lemma_one_edit(before, seq![action]);
        }
    }

    /// Indents the rows that the selection touches. The cursor goes to
    /// `after`, and the other end of the selection moves right as far.
    pub(crate) fn indent_selection(
        &mut self,
        anchor: CursorPosition,
        after: CursorPosition,
        step: usize,
    )
        requires
            old(self)@.wf(),
            old(self)@.selection == Some(anchor),
            step == old(self)@.indent.unit().len(),
            2 * step <= usize::MAX,
            after == shifted_right(old(self)@.cursor, step as nat),
        ensures
            final(self)@ == old(self)@.indented(),
            final(self)@.wf(),
            final(self)@.is_one_edit_of(old(self)@),
    {
        let ghost before = self@;
        let cursor = self.cursor;
        let (start, end) = CursorPosition::ordered(cursor, anchor);
        let _ = self.byte_position(anchor);
        self.indent_rows(start.row, end.row, after);
        self.cursor = after;
        self.selection = Some(CursorPosition { row: anchor.row, col: anchor.col + step });
        proof {
            let count = (end.row - start.row + 1) as nat;
            let chain = before.indent_chain(start.row as int, count);
            assert(chain[0] == indent_action(
                before.indent,
                start.row,
                before.cursors_at(start.row as int, after),
            ));
            assert(chain.last() == indent_action(
                before.indent,
                end.row,
                before.cursors_at(end.row as int, after),
            ));
            assert(chain[0].cursor_before() == cursor);
            assert(chain.last().cursor_after() == after);
            self@.lemma_one_edit(before, chain);
            assert(before.rows() == (start.row as int, end.row + 1));
        }
    }
}

} // verus!
