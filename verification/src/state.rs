//! What a text buffer holds, as a mathematical value, and what doing, undoing
//! and redoing edits make of it.

use crate::cursor::CursorPosition;
use crate::history::{block_rows, splice, ActionView, BytePosition, HistoryAction};
use crate::text::{byte_len, byte_offset};
use crate::indent::Indent;
use crate::viewport::Viewport;
use vstd::prelude::*;

verus! {

/// One entry of a history stack: an action, and whether it continues the
/// logical edit that the entry below it belongs to.
pub type Entry = (ActionView, bool);

/// What a text buffer holds, with its text as sequences of characters.
pub struct TextState {
    pub lines: Seq<Seq<char>>,
    pub cursor: CursorPosition,
    pub selection: Option<CursorPosition>,
    pub undo: Seq<Entry>,
    pub redo: Seq<Entry>,
    pub clipboard: Option<Seq<char>>,
    pub pattern: Option<Seq<char>>,
    pub indent: Indent,
    pub line_numbers: bool,
    pub viewport: Viewport,
}

/// The entries of a history stack, each action by its view.
pub open spec fn entries_of(stack: Seq<(HistoryAction, bool)>) -> Seq<Entry> {
    Seq::new(stack.len(), |i: int| (stack[i].0@, stack[i].1))
}

/// `position` names a row of `text` and a column within that row or at its
/// end.
pub open spec fn in_text(text: Seq<Seq<char>>, position: CursorPosition) -> bool {
    position.row < text.len() && position.col <= text[position.row as int].len()
}

/// The entries of `stack` can be taken back one after the other, from the top
/// down, starting from `text`: the inverse of each is reversible on the text
/// that taking back those above it has given.
pub open spec fn history_ok(text: Seq<Seq<char>>, stack: Seq<Entry>) -> bool
    decreases stack.len(),
{
    stack.len() == 0 || {
        let inverse = stack.last().0.invert();
        inverse.reversible(text) && history_ok(inverse.apply(text), stack.drop_last())
    }
}

/// The text that applying the actions of `chain` one after the other makes
/// of `text`.
pub open spec fn applied(text: Seq<Seq<char>>, chain: Seq<ActionView>) -> Seq<Seq<char>>
    decreases chain.len(),
{
    if chain.len() == 0 {
        text
    } else {
        chain.last().apply(applied(text, chain.drop_last()))
    }
}

/// Each action of `chain` is reversible on the text that those before it have
/// made of `text`.
pub open spec fn can_apply(text: Seq<Seq<char>>, chain: Seq<ActionView>) -> bool
    decreases chain.len(),
{
    chain.len() == 0 || {
        &&& can_apply(text, chain.drop_last())
        &&& chain.last().reversible(applied(text, chain.drop_last()))
    }
}

/// The entries that doing `chain` as one logical edit puts on the undo stack.
/// The first continues an edit only where `continued` says so, the others
/// always do.
pub open spec fn recorded(chain: Seq<ActionView>, continued: bool) -> Seq<Entry> {
    Seq::new(chain.len(), |i: int| (chain[i], continued || i > 0))
}

/// The entries that undoing `chain` puts on the redo stack: the inverses, the
/// last action's first.
pub open spec fn trail(chain: Seq<ActionView>, continued: bool) -> Seq<Entry> {
    Seq::new(
        chain.len(),
        |i: int| (chain[chain.len() - 1 - i].invert(), continued || chain.len() - 1 - i > 0),
    )
}

impl TextState {
    /// The text has a line, and both history stacks fit the text.
    pub open spec fn consistent(self) -> bool {
        &&& self.lines.len() >= 1
        &&& history_ok(self.lines, self.undo)
        &&& history_ok(self.lines, self.redo)
    }

    /// The buffer is consistent, cursor and selection lie in the text, and
    /// the indentation is well formed.
    pub open spec fn wf(self) -> bool {
        &&& self.consistent()
        &&& in_text(self.lines, self.cursor)
        &&& self.selection matches Some(anchor) ==> in_text(self.lines, anchor)
        &&& self.indent.wf()
    }

    /// The state after `action` has been applied and recorded, as the start
    /// of a logical edit or as the continuation of one. What could be redone
    /// is forgotten.
    pub open spec fn did(self, action: ActionView, chain: bool) -> TextState {
        TextState {
            lines: action.apply(self.lines),
            undo: self.undo.push((action, chain)),
            redo: Seq::empty(),
            ..self
        }
    }

    /// The state after an edit that has made `lines` of the text has been
    /// recorded as `action`, as the start of a logical edit or as the
    /// continuation of one. What could be redone is forgotten.
    pub open spec fn edited(
        self,
        lines: Seq<Seq<char>>,
        action: ActionView,
        chain: bool,
    ) -> TextState {
        TextState { lines, undo: self.undo.push((action, chain)), redo: Seq::empty(), ..self }
    }

    /// The state after the actions of `chain`, which have made `lines` of
    /// the text, have been recorded as one logical edit. An empty chain
    /// changes nothing.
    pub open spec fn edited_all(self, lines: Seq<Seq<char>>, chain: Seq<ActionView>) -> TextState {
        if chain.len() == 0 {
            self
        } else {
            TextState {
                lines,
                undo: self.undo + recorded(chain, false),
                redo: Seq::empty(),
                ..self
            }
        }
    }

    /// The state after the cursor has gone to `cursor`. With `shift` a
    /// selection is kept, or begun at the old cursor; without it the
    /// selection is dropped. A position outside the text changes nothing.
    pub open spec fn moved(self, cursor: CursorPosition, shift: bool) -> TextState {
        if in_text(self.lines, cursor) {
            TextState {
                cursor,
                selection: if !shift {
                    None
                } else if self.selection is Some {
                    self.selection
                } else {
                    Some(self.cursor)
                },
                ..self
            }
        } else {
            self
        }
    }

    /// The state after the selection has been set to `selection`. An anchor
    /// outside the text changes nothing.
    pub open spec fn selected(self, selection: Option<CursorPosition>) -> TextState {
        if selection matches Some(anchor) && !in_text(self.lines, anchor) {
            self
        } else {
            TextState { selection, ..self }
        }
    }

    /// The state after the top entry of the undo stack has been taken back.
    pub open spec fn undone_one(self) -> TextState
        recommends
            self.undo.len() > 0,
    {
        let inverse = self.undo.last().0.invert();
        TextState {
            lines: inverse.apply(self.lines),
            undo: self.undo.drop_last(),
            redo: self.redo.push((inverse, self.undo.last().1)),
            ..self
        }
    }

    /// The state after one undo: entries are taken back from the top of the
    /// undo stack down to and including the first that begins a logical edit.
    pub open spec fn undone(self) -> TextState
        decreases self.undo.len(),
    {
        if self.undo.len() == 0 {
            self
        } else if self.undo.last().1 {
            self.undone_one().undone()
        } else {
            self.undone_one()
        }
    }

    /// The cursor that one undo returns: the one recorded before the last
    /// entry that it takes back; nothing where there is nothing to undo.
    pub open spec fn undo_cursor(self) -> Option<CursorPosition>
        decreases self.undo.len(),
    {
        if self.undo.len() == 0 {
            None
        } else if self.undo.last().1 && self.undo.len() > 1 {
            self.undone_one().undo_cursor()
        } else {
            Some(self.undo.last().0.cursor_before())
        }
    }

    /// The state after the top entry of the redo stack has been done again.
    pub open spec fn redone_one(self) -> TextState
        recommends
            self.redo.len() > 0,
    {
        let action = self.redo.last().0.invert();
        TextState {
            lines: action.apply(self.lines),
            redo: self.redo.drop_last(),
            undo: self.undo.push((action, self.redo.last().1)),
            ..self
        }
    }

    /// The state after one redo: the top entry of the redo stack is done
    /// again, and after it each entry that continues the same logical edit.
    pub open spec fn redone(self) -> TextState
        decreases self.redo.len(),
    {
        if self.redo.len() == 0 {
            self
        } else {
            let next = self.redone_one();
            if next.redo.len() > 0 && next.redo.last().1 {
                next.redone()
            } else {
                next
            }
        }
    }

    /// The cursor that one redo returns: the one recorded after the last
    /// entry that it does again; nothing where there is nothing to redo.
    pub open spec fn redo_cursor(self) -> Option<CursorPosition>
        decreases self.redo.len(),
    {
        if self.redo.len() == 0 {
            None
        } else {
            let next = self.redone_one();
            if next.redo.len() > 0 && next.redo.last().1 {
                next.redo_cursor()
            } else {
                Some(self.redo.last().0.cursor_before())
            }
        }
    }

    /// The state after the actions of `chain` have been done as one logical
    /// edit: the first begins it, the others continue it.
    pub open spec fn did_all(self, chain: Seq<ActionView>) -> TextState {
        if chain.len() == 0 {
            self
        } else {
            TextState {
                lines: applied(self.lines, chain),
                undo: self.undo + recorded(chain, false),
                redo: Seq::empty(),
                ..self
            }
        }
    }

    /// Doing a reversible action keeps the buffer consistent.
    pub proof fn lemma_did_consistent(self, action: ActionView, chain: bool)
        requires
            self.consistent(),
            action.reversible(self.lines),
        ensures
            self.did(action, chain).consistent(),
            self.did(action, chain).undone_one().lines == self.lines,
            self.did(action, chain).undone_one().undo == self.undo,
    {
        action.lemma_inverse(self.lines);
        action.lemma_apply_keeps_a_line(self.lines);
        let after = self.did(action, chain);
        assert(after.undo.drop_last() =~= self.undo);
        assert(after.undo.last().0 == action);
    }

    /// Taking back the top entry of the undo stack keeps the buffer
    /// consistent.
    pub proof fn lemma_undone_one_consistent(self)
        requires
            self.consistent(),
            self.undo.len() > 0,
        ensures
            self.undone_one().consistent(),
    {
        let action = self.undo.last().0;
        let inverse = action.invert();
        inverse.lemma_inverse(self.lines);
        inverse.lemma_apply_keeps_a_line(self.lines);
        action.lemma_invert_twice();
        let after = self.undone_one();
        assert(after.redo.drop_last() =~= self.redo);
        assert(after.redo.last().0 == inverse);
    }

    /// Doing the top entry of the redo stack again keeps the buffer
    /// consistent.
    pub proof fn lemma_redone_one_consistent(self)
        requires
            self.consistent(),
            self.redo.len() > 0,
        ensures
            self.redone_one().consistent(),
    {
        let inverse = self.redo.last().0;
        let action = inverse.invert();
        action.lemma_inverse(self.lines);
        action.lemma_apply_keeps_a_line(self.lines);
        inverse.lemma_invert_twice();
        let after = self.redone_one();
        assert(after.undo.drop_last() =~= self.undo);
        assert(after.undo.last().0 == action);
    }

    /// Undo and redo change the text and the two stacks and nothing else.
    pub proof fn lemma_undone_frame(self)
        ensures
            self.undone() == (TextState {
                lines: self.undone().lines,
                undo: self.undone().undo,
                redo: self.undone().redo,
                ..self
            }),
            self.redone() == (TextState {
                lines: self.redone().lines,
                undo: self.redone().undo,
                redo: self.redone().redo,
                ..self
            }),
    {
        self.lemma_undone_frame_up();
        self.lemma_redone_frame_up();
    }

    /// One undo changes the text and the two stacks and nothing else.
    proof fn lemma_undone_frame_up(self)
        ensures
            self.undone() == (TextState {
                lines: self.undone().lines,
                undo: self.undone().undo,
                redo: self.undone().redo,
                ..self
            }),
        decreases self.undo.len(),
    {
        if self.undo.len() > 0 && self.undo.last().1 {
            self.undone_one().lemma_undone_frame_up();
        }
    }

    /// One redo changes the text and the two stacks and nothing else.
    proof fn lemma_redone_frame_up(self)
        ensures
            self.redone() == (TextState {
                lines: self.redone().lines,
                undo: self.redone().undo,
                redo: self.redone().redo,
                ..self
            }),
        decreases self.redo.len(),
    {
        if self.redo.len() > 0 {
            let next = self.redone_one();
            if next.redo.len() > 0 && next.redo.last().1 {
                next.lemma_redone_frame_up();
            }
        }
    }

    /// One undo keeps the buffer consistent.
    pub proof fn lemma_undone_consistent(self)
        requires
            self.consistent(),
        ensures
            self.undone().consistent(),
        decreases self.undo.len(),
    {
        if self.undo.len() > 0 {
            self.lemma_undone_one_consistent();
            if self.undo.last().1 {
                self.undone_one().lemma_undone_consistent();
            }
        }
    }

    /// One redo keeps the buffer consistent.
    pub proof fn lemma_redone_consistent(self)
        requires
            self.consistent(),
        ensures
            self.redone().consistent(),
        decreases self.redo.len(),
    {
        if self.redo.len() > 0 {
            self.lemma_redone_one_consistent();
            let next = self.redone_one();
            if next.redo.len() > 0 && next.redo.last().1 {
                next.lemma_redone_consistent();
            }
        }
    }
}

/// Applying a chain is applying its first action and then the rest.
pub proof fn lemma_applied_front(text: Seq<Seq<char>>, chain: Seq<ActionView>)
    requires
        chain.len() >= 1,
    ensures
        applied(text, chain) == applied(chain[0].apply(text), chain.skip(1)),
        can_apply(text, chain) == (chain[0].reversible(text) && can_apply(
            chain[0].apply(text),
            chain.skip(1),
        )),
    decreases chain.len(),
{
    let first = chain[0];
    let others = chain.skip(1);
    let shorter = chain.drop_last();
    if chain.len() == 1 {
        assert(shorter.len() == 0);
        assert(others.len() == 0);
        assert(chain.last() == first);
        assert(applied(text, shorter) == text);
        assert(can_apply(text, shorter));
        assert(applied(first.apply(text), others) == first.apply(text));
        assert(can_apply(first.apply(text), others));
    } else {
        lemma_applied_front(text, shorter);
        assert(shorter.skip(1) =~= others.drop_last());
        assert(others.last() == chain.last());
        assert(shorter[0] == first);
        assert(others.len() >= 1);
        assert(applied(first.apply(text), others) == others.last().apply(
            applied(first.apply(text), others.drop_last()),
        ));
        assert(can_apply(first.apply(text), others) == (can_apply(
            first.apply(text),
            others.drop_last(),
        ) && others.last().reversible(applied(first.apply(text), others.drop_last()))));
    }
}

impl TextState {
    /// Doing a chain and then one more action that continues it is doing the
    /// longer chain.
    pub proof fn lemma_did_all_step(self, chain: Seq<ActionView>, action: ActionView)
        ensures
            self.did_all(chain.push(action)) == self.did_all(chain).did(action, chain.len() > 0),
    {
        let longer = chain.push(action);
        assert(longer.drop_last() =~= chain);
        assert(longer.last() == action);
        assert(self.undo + recorded(longer, false) =~= (self.undo + recorded(chain, false)).push(
            (action, chain.len() > 0),
        ));
        if chain.len() == 0 {
            assert(self.undo + recorded(chain, false) =~= self.undo);
        }
    }

    /// Doing a chain of reversible actions keeps the buffer consistent.
    pub proof fn lemma_did_all_consistent(self, chain: Seq<ActionView>)
        requires
            self.consistent(),
            can_apply(self.lines, chain),
        ensures
            self.did_all(chain).consistent(),
            self.did_all(chain).lines == applied(self.lines, chain),
        decreases chain.len(),
    {
        if chain.len() > 0 {
            let shorter = chain.drop_last();
            self.lemma_did_all_consistent(shorter);
            self.lemma_did_all_step(shorter, chain.last());
            assert(shorter.push(chain.last()) =~= chain);
            self.did_all(shorter).lemma_did_consistent(chain.last(), shorter.len() > 0);
        }
    }

    /// One undo takes back a whole chain: where the top of the undo stack is
    /// what doing `chain` on `text` has recorded, the text is `text` again,
    /// the entries of the chain have left the undo stack, their inverses are
    /// on the redo stack, and the cursor returned is the one recorded before
    /// the first action of the chain.
    pub proof fn lemma_undo_chain(
        self,
        text: Seq<Seq<char>>,
        base: Seq<Entry>,
        chain: Seq<ActionView>,
    )
        requires
            chain.len() >= 1,
            can_apply(text, chain),
            self.lines == applied(text, chain),
            self.undo == base + recorded(chain, false),
        ensures
            self.undone() == (TextState {
                lines: text,
                undo: base,
                redo: self.redo + trail(chain, false),
                ..self
            }),
            self.undo_cursor() == Some(chain[0].cursor_before()),
        decreases chain.len(),
    {
        let shorter = chain.drop_last();
        let last = chain.last();
        let before = applied(text, shorter);
        last.lemma_inverse(before);
        last.lemma_invert_twice();
        assert(self.undo.last() == (last, chain.len() > 1));
        assert(self.undo.drop_last() =~= base + recorded(shorter, false));
        let one = self.undone_one();
        assert(one.lines == before);
        if chain.len() == 1 {
            assert(shorter =~= Seq::<ActionView>::empty());
            assert(base + recorded(shorter, false) =~= base);
            assert(self.redo.push((last.invert(), false)) =~= self.redo + trail(chain, false));
        } else {
            one.lemma_undo_chain(text, base, shorter);
            assert(one.redo + trail(shorter, false) =~= self.redo + trail(chain, false));
            assert(shorter[0] == chain[0]);
        }
    }

    /// One redo does a whole chain again: where the top of the redo stack is
    /// what undoing `chain` has left there, and what lies below it begins
    /// another logical edit, the text is what the chain makes of it, the
    /// entries of the chain are on the undo stack again, and the cursor
    /// returned is the one recorded after the last action of the chain.
    pub proof fn lemma_redo_chain(self, rest: Seq<Entry>, chain: Seq<ActionView>, continued: bool)
        requires
            chain.len() >= 1,
            can_apply(self.lines, chain),
            self.redo == rest + trail(chain, continued),
            rest.len() == 0 || !rest.last().1,
        ensures
            self.redone() == (TextState {
                lines: applied(self.lines, chain),
                undo: self.undo + recorded(chain, continued),
                redo: rest,
                ..self
            }),
            self.redo_cursor() == Some(chain.last().cursor_after()),
        decreases chain.len(),
    {
        let first = chain[0];
        let others = chain.skip(1);
        lemma_applied_front(self.lines, chain);
        first.lemma_invert_twice();
        assert(self.redo.last() == (first.invert(), continued));
        assert(self.redo.drop_last() =~= rest + trail(others, true));
        let next = self.redone_one();
        assert(next.lines == first.apply(self.lines));
        if chain.len() == 1 {
            assert(others =~= Seq::<ActionView>::empty());
            assert(rest + trail(others, true) =~= rest);
            assert(self.undo.push((first, continued)) =~= self.undo + recorded(chain, continued));
            assert(chain.last() == first);
        } else {
            assert(next.redo.last() == (others[0].invert(), true)) by {
                assert(trail(others, true).last() == (others[0].invert(), true));
            }
            next.lemma_redo_chain(rest, others, true);
            assert(next.undo + recorded(others, true) =~= self.undo + recorded(chain, continued));
            assert(others.last() == chain.last());
        }
    }

    /// Undo and redo treat a chain as one step. After a chain of reversible
    /// actions has been done as one logical edit, one undo gives back the text
    /// and the undo stack as they were and returns the cursor recorded before
    /// the first action; one redo after that gives the state that the chain
    /// had made, and returns the cursor recorded after the last action.
    pub proof fn lemma_undo_redo_chain(self, chain: Seq<ActionView>)
        requires
            self.consistent(),
            chain.len() >= 1,
            can_apply(self.lines, chain),
        ensures
            self.did_all(chain).consistent(),
            self.did_all(chain).undone().lines == self.lines,
            self.did_all(chain).undone().undo == self.undo,
            self.did_all(chain).undone().cursor == self.cursor,
            self.did_all(chain).undone().selection == self.selection,
            self.did_all(chain).undo_cursor() == Some(chain[0].cursor_before()),
            self.did_all(chain).undone().redone() == self.did_all(chain),
            self.did_all(chain).undone().redo_cursor() == Some(chain.last().cursor_after()),
    {
        let after = self.did_all(chain);
        self.lemma_did_all_consistent(chain);
        after.lemma_undo_chain(self.lines, self.undo, chain);
        let back = after.undone();
        assert(back.redo =~= Seq::<Entry>::empty() + trail(chain, false));
        back.lemma_redo_chain(Seq::<Entry>::empty(), chain, false);
        assert(back.redone().redo =~= after.redo);
    }
}

/// The text between two positions of `text`, the first not after the second:
/// on one row the characters between the two columns; over several rows the
/// end of the first row, the rows between, and the start of the last row.
pub open spec fn span_text(text: Seq<Seq<char>>, start: CursorPosition, end: CursorPosition) -> Seq<
    Seq<char>,
> {
    if start.row == end.row {
        seq![text[start.row as int].subrange(start.col as int, end.col as int)]
    } else {
        seq![text[start.row as int].skip(start.col as int)] + text.subrange(
            start.row + 1,
            end.row as int,
        ) + seq![text[end.row as int].take(end.col as int)]
    }
}

/// The text that is left when what lies between two positions is taken out:
/// the rows from the first to the last position become one row, made of what
/// stood before the first and what stood after the second.
pub open spec fn without_span(
    text: Seq<Seq<char>>,
    start: CursorPosition,
    end: CursorPosition,
) -> Seq<Seq<char>> {
    splice(
        text,
        start.row as int,
        end.row - start.row + 1,
        seq![
            text[start.row as int].take(start.col as int) + text[end.row as int].skip(
                end.col as int,
            ),
        ],
    )
}

/// The action that removes what lies between two positions.
pub open spec fn removal(
    text: Seq<Seq<char>>,
    start: CursorPosition,
    end: CursorPosition,
    cursor: (CursorPosition, CursorPosition),
) -> ActionView {
    ActionView::RemoveLines {
        lines: span_text(text, start, end),
        position: BytePosition {
            row: start.row,
            col: byte_offset(text[start.row as int], start.col as int) as usize,
        },
        cursor,
    }
}

/// Removing what lies between two positions of a text is reversible, and
/// leaves the text without that span.
pub proof fn lemma_removal(
    text: Seq<Seq<char>>,
    start: CursorPosition,
    end: CursorPosition,
    cursor: (CursorPosition, CursorPosition),
)
    requires
        in_text(text, start),
        in_text(text, end),
        start.before_or_at(end),
        byte_len(text[start.row as int]) <= usize::MAX,
    ensures
        removal(text, start, end, cursor).reversible(text),
        removal(text, start, end, cursor).apply(text) == without_span(text, start, end),
        span_text(text, start, end).len() == end.row - start.row + 1,
        in_text(without_span(text, start, end), start),
{
    let first = text[start.row as int];
    let last = text[end.row as int];
    let head = first.take(start.col as int);
    let tail = last.skip(end.col as int);
    let span = span_text(text, start, end);
    let offset = byte_offset(first, start.col as int);
    crate::text::lemma_byte_offset_split(first, start.col as int);
    crate::text::lemma_col_at_offset(first, start.col as int);
    let action = removal(text, start, end, cursor);
    let position = BytePosition { row: start.row, col: offset as usize };
    if start.row == end.row {
        let middle = first.subrange(start.col as int, end.col as int);
        assert(span[0] == middle);
        assert(first.take(end.col as int) =~= head + middle);
        crate::text::lemma_byte_len_concat(head, middle);
        crate::text::lemma_byte_offset_split(first, end.col as int);
        crate::text::lemma_col_at_offset(first, end.col as int);
        assert(ActionView::removal_end(text, span, position) == end.col);
        assert(head + middle + tail =~= first);
        assert(text.subrange(start.row as int, start.row + 1) =~= seq![head + middle + tail]);
    } else {
        let piece = last.take(end.col as int);
        assert(span.last() == piece);
        crate::text::lemma_prefix_boundary(last, piece);
        assert(text[start.row + span.len() - 1] == last);
        assert(ActionView::removal_end(text, span, position) == end.col);
        assert(span.subrange(1, span.len() - 1) =~= text.subrange(start.row + 1, end.row as int));
        assert(head + span.first() =~= first);
        assert(span.last() + tail =~= last);
        assert(text.subrange(start.row as int, start.row + span.len()) =~= block_rows(
            head,
            span,
            tail,
        ));
    }
}

/// The byte position of `at` in `text`.
pub open spec fn byte_position(text: Seq<Seq<char>>, at: CursorPosition) -> BytePosition {
    BytePosition { row: at.row, col: byte_offset(text[at.row as int], at.col as int) as usize }
}

/// The action that inserts `ch` at `at`.
pub open spec fn insert_char(
    text: Seq<Seq<char>>,
    at: CursorPosition,
    ch: char,
    cursor: (CursorPosition, CursorPosition),
) -> ActionView {
    ActionView::InsertChar { char: ch, position: byte_position(text, at), cursor }
}

/// The action that removes the character at `at`.
pub open spec fn remove_char(
    text: Seq<Seq<char>>,
    at: CursorPosition,
    cursor: (CursorPosition, CursorPosition),
) -> ActionView {
    ActionView::RemoveChar {
        char: text[at.row as int][at.col as int],
        position: byte_position(text, at),
        cursor,
    }
}

/// The action that breaks the line at `at` in two.
pub open spec fn split_line(
    text: Seq<Seq<char>>,
    at: CursorPosition,
    cursor: (CursorPosition, CursorPosition),
) -> ActionView {
    ActionView::InsertLinebreak { position: byte_position(text, at), cursor }
}

/// The action that joins row `row` with the row after it.
pub open spec fn join_lines(
    text: Seq<Seq<char>>,
    row: usize,
    cursor: (CursorPosition, CursorPosition),
) -> ActionView {
    ActionView::RemoveLinebreak {
        position: BytePosition { row, col: byte_len(text[row as int]) as usize },
        cursor,
    }
}

/// The action that inserts the lines of `block` at `at`.
pub open spec fn insertion(
    text: Seq<Seq<char>>,
    at: CursorPosition,
    block: Seq<Seq<char>>,
    cursor: (CursorPosition, CursorPosition),
) -> ActionView {
    ActionView::InsertLines { lines: block, position: byte_position(text, at), cursor }
}

/// The text with `block` put in at `at`.
pub open spec fn with_block(text: Seq<Seq<char>>, at: CursorPosition, block: Seq<Seq<char>>) -> Seq<
    Seq<char>,
> {
    let line = text[at.row as int];
    splice(
        text,
        at.row as int,
        1,
        block_rows(line.take(at.col as int), block, line.skip(at.col as int)),
    )
}

/// What the actions that address a position do to the text, in columns.
pub proof fn lemma_edit_at(
    text: Seq<Seq<char>>,
    at: CursorPosition,
    ch: char,
    block: Seq<Seq<char>>,
    cursor: (CursorPosition, CursorPosition),
)
    requires
        in_text(text, at),
        byte_len(text[at.row as int]) <= usize::MAX,
    ensures
        insert_char(text, at, ch, cursor).reversible(text),
        insert_char(text, at, ch, cursor).apply(text) == text.update(
            at.row as int,
            text[at.row as int].insert(at.col as int, ch),
        ),
        at.col < text[at.row as int].len() ==> {
            &&& remove_char(text, at, cursor).reversible(text)
            &&& remove_char(text, at, cursor).apply(text) == text.update(
                at.row as int,
                text[at.row as int].remove(at.col as int),
            )
        },
        split_line(text, at, cursor).reversible(text),
        split_line(text, at, cursor).apply(text) == splice(
            text,
            at.row as int,
            1,
            seq![text[at.row as int].take(at.col as int), text[at.row as int].skip(at.col as int)],
        ),
        insertion(text, at, block, cursor).reversible(text),
        block.len() >= 1 ==> insertion(text, at, block, cursor).apply(text) == with_block(
            text,
            at,
            block,
        ),
        block.len() == 0 ==> insertion(text, at, block, cursor).apply(text) == text,
{
    let line = text[at.row as int];
    crate::text::lemma_byte_offset_split(line, at.col as int);
    crate::text::lemma_col_at_offset(line, at.col as int);
    if at.col < line.len() {
        crate::text::lemma_byte_offset_increasing(line, at.col as int, line.len() as int);
    }
}

/// What joining two rows does to the text.
pub proof fn lemma_join_lines(
    text: Seq<Seq<char>>,
    row: usize,
    cursor: (CursorPosition, CursorPosition),
)
    requires
        row + 1 < text.len(),
        byte_len(text[row as int]) <= usize::MAX,
    ensures
        join_lines(text, row, cursor).reversible(text),
        join_lines(text, row, cursor).apply(text) == splice(
            text,
            row as int,
            2,
            seq![text[row as int] + text[row + 1]],
        ),
{
}

/// The rows of a text that a block has been put into.
pub proof fn lemma_with_block(text: Seq<Seq<char>>, at: CursorPosition, block: Seq<Seq<char>>)
    requires
        in_text(text, at),
        block.len() >= 1,
    ensures
        with_block(text, at, block).len() == text.len() + block.len() - 1,
        with_block(text, at, block)[at.row + block.len() - 1] == if block.len() == 1 {
            text[at.row as int].take(at.col as int) + block[0] + text[at.row as int].skip(
                at.col as int,
            )
        } else {
            block.last() + text[at.row as int].skip(at.col as int)
        },
        block.len() > 1 ==> with_block(text, at, block)[at.row as int] == text[at.row as int].take(
            at.col as int,
        ) + block[0],
        forall|i: int| 0 <= i < at.row ==> with_block(text, at, block)[i] == text[i],
        forall|i: int|
            at.row < i < text.len() ==> with_block(text, at, block)[i + block.len() - 1]
                == text[i],
        forall|i: int|
            0 < i < block.len() - 1 ==> with_block(text, at, block)[at.row + i] == block[i],
{
    let line = text[at.row as int];
    let rows = block_rows(line.take(at.col as int), block, line.skip(at.col as int));
    assert(rows.len() == block.len());
}

impl TextState {
    /// The buffer has got from `before` to this state by doing the actions
    /// of `chain`, at least one, as one logical edit: each was reversible
    /// when it was done, the text is what they have made, they are what the
    /// undo stack has gained, and nothing is left to redo.
    pub open spec fn made_by(self, before: TextState, chain: Seq<ActionView>) -> bool {
        &&& chain.len() >= 1
        &&& can_apply(before.lines, chain)
        &&& self.lines == applied(before.lines, chain)
        &&& self.undo == before.undo + recorded(chain, false)
        &&& self.redo == Seq::<Entry>::empty()
    }

    /// This state is one logical edit away from `before`: one undo gives
    /// back the text and the undo stack of `before` and returns its cursor,
    /// and one redo after that gives this state again and returns its cursor.
    pub open spec fn is_one_edit_of(self, before: TextState) -> bool {
        &&& self.undone().lines == before.lines
        &&& self.undone().undo == before.undo
        &&& self.undo_cursor() == Some(before.cursor)
        &&& self.undone().redone() == self
        &&& self.undone().redo_cursor() == Some(self.cursor)
    }

    /// A state made by one reversible action is made by the chain of that
    /// action.
    pub proof fn lemma_made_by_first(self, before: TextState, action: ActionView)
        requires
            action.reversible(before.lines),
            self.lines == action.apply(before.lines),
            self.undo == before.undo.push((action, false)),
            self.redo == Seq::<Entry>::empty(),
        ensures
            self.made_by(before, seq![action]),
    {
        let chain = seq![action];
        assert(chain.drop_last() =~= Seq::<ActionView>::empty());
        assert(chain.last() == action);
        assert(applied(before.lines, chain.drop_last()) == before.lines);
        assert(can_apply(before.lines, chain.drop_last()));
        assert(before.undo + recorded(chain, false) =~= before.undo.push((action, false)));
    }

    /// A state made by a chain and one more reversible action that continues
    /// it is made by the longer chain.
    pub proof fn lemma_made_by_next(
        self,
        before: TextState,
        between: TextState,
        chain: Seq<ActionView>,
        action: ActionView,
    )
        requires
            between.made_by(before, chain),
            action.reversible(between.lines),
            self.lines == action.apply(between.lines),
            self.undo == between.undo.push((action, true)),
            self.redo == Seq::<Entry>::empty(),
        ensures
            self.made_by(before, chain.push(action)),
    {
        let longer = chain.push(action);
        assert(longer.drop_last() =~= chain);
        assert(longer.last() == action);
        assert(before.undo + recorded(longer, false) =~= (before.undo + recorded(
            chain,
            false,
        )).push((action, true)));
    }

    /// A state made by a chain whose first action records the cursor of
    /// `before`, and whose last action records the cursor of this state, is
    /// one logical edit away from `before`.
    pub proof fn lemma_one_edit(self, before: TextState, chain: Seq<ActionView>)
        requires
            self.made_by(before, chain),
            chain[0].cursor_before() == before.cursor,
            chain.last().cursor_after() == self.cursor,
        ensures
            self.is_one_edit_of(before),
    {
        self.lemma_undo_chain(before.lines, before.undo, chain);
        let back = self.undone();
        assert(back.redo =~= Seq::<Entry>::empty() + trail(chain, false));
        back.lemma_redo_chain(Seq::<Entry>::empty(), chain, false);
        assert(back.redone().redo =~= self.redo);
    }
}

} // verus!
