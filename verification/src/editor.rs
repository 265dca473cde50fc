//! The editor: a text buffer with the commands of a code editor on top of it.

use crate::cursor::CursorPosition;
use crate::editing::right_of;
use crate::history::splice;
use crate::indent::Indent;
use crate::input::{Input, Key};
use crate::state::{insert_char, insertion, lemma_with_block, split_line, TextState};
use crate::text::text_of;
use crate::textarea::TextArea;
use vstd::prelude::*;

verus! {

/// An editor for one text.
pub struct Editor {
    pub textarea: TextArea,
}

/// The character that closes what `ch` opens: a bracket's counterpart, and
/// for any other character the character itself.
pub open spec fn closing(ch: char) -> char {
    if ch == '(' {
        ')'
    } else if ch == '[' {
        ']'
    } else if ch == '{' {
        '}'
    } else {
        ch
    }
}

/// Whether `ch` opens a pair: always for the three opening brackets, for the
/// two quotes only around a selection.
pub open spec fn opens_pair(ch: char, selecting: bool) -> bool {
    ch == '(' || ch == '[' || ch == '{' || (selecting && (ch == '\'' || ch == '"'))
}

impl TextState {
    /// The state after Enter: the cursor's row is broken in two at the
    /// cursor, which goes to the start of the new row.
    pub open spec fn entered(self) -> TextState {
        let cursor = self.cursor;
        let line = self.lines[cursor.row as int];
        let below = CursorPosition { row: (cursor.row + 1) as usize, col: 0 };
        self.edited(
            splice(
                self.lines,
                cursor.row as int,
                1,
                seq![line.take(cursor.col as int), line.skip(cursor.col as int)],
            ),
            split_line(self.lines, cursor, (cursor, below)),
            false,
        ).placed(below)
    }

    /// The state after the cursor's row has been duplicated: the copy stands
    /// below the row, and the cursor goes down to it.
    pub open spec fn duplicated(self) -> TextState {
        let cursor = self.cursor;
        let below = CursorPosition { row: (cursor.row + 1) as usize, col: cursor.col };
        self.edited(
            self.lines.insert(cursor.row + 1, self.lines[cursor.row as int]),
            insertion(
                self.lines,
                CursorPosition { row: cursor.row, col: 0 },
                seq![self.lines[cursor.row as int], Seq::empty()],
                (cursor, below),
            ),
            false,
        ).placed(below)
    }

    /// The two places between which a pair is put: the ends of the
    /// selection, or the cursor twice.
    pub open spec fn pair_ends(self) -> (CursorPosition, CursorPosition) {
        if self.selection is Some {
            self.selection_ends()
        } else {
            (self.cursor, self.cursor)
        }
    }

    /// `text` with `ch` put in at `at`.
    pub open spec fn with_char(text: Seq<Seq<char>>, at: CursorPosition, ch: char) -> Seq<
        Seq<char>,
    > {
        text.update(at.row as int, text[at.row as int].insert(at.col as int, ch))
    }

    /// The state after `ch` has been typed as the opening half of a pair.
    /// Without a selection both halves are inserted at the cursor, which
    /// stays between them. With a selection the opening half goes before its
    /// earlier end and the closing half after its later end; the selection
    /// stays around the same text. Both halves are one logical edit.
    pub open spec fn paired(self, ch: char) -> TextState {
        let cursor = self.cursor;
        let (start, end) = self.pair_ends();
        let same = start.row == end.row;
        let first = self.selection matches Some(anchor) && cursor.before(anchor);
        let cursor_after = if same || first {
            right_of(cursor)
        } else {
            cursor
        };
        let close_at = if same {
            right_of(end)
        } else {
            end
        };
        let opened = self.edited(
            Self::with_char(self.lines, start, ch),
            insert_char(self.lines, start, ch, (cursor, cursor_after)),
            false,
        );
        let closed = opened.edited(
            Self::with_char(opened.lines, close_at, closing(ch)),
            insert_char(opened.lines, close_at, closing(ch), (cursor_after, cursor_after)),
            true,
        );
        TextState {
            cursor: cursor_after,
            selection: match self.selection {
                Some(anchor) => Some(
                    if same || !first {
                        right_of(anchor)
                    } else {
                        anchor
                    },
                ),
                None => None,
            },
            ..closed
        }
    }
}

/// The character that closes what `ch` opens.
pub fn closing_char(ch: char) -> (r: char)
    ensures
        r == closing(ch),
{
    if ch == '(' {
        ')'
    } else if ch == '[' {
        ']'
    } else if ch == '{' {
        '}'
    } else {
        ch
    }
}

impl Editor {
    /// An editor for `textarea`.
    pub fn new(textarea: TextArea) -> (r: Editor)
        ensures
            r.textarea == textarea,
    {
        Editor { textarea }
    }

    /// Enter: breaks the line at the cursor.
    pub fn enter(&mut self)
        requires
            old(self).textarea@.wf(),
        ensures
            final(self).textarea@ == old(self).textarea@.entered(),
            final(self).textarea@.wf(),
            final(self).textarea@.is_one_edit_of(old(self).textarea@),
    {
        let area = &mut self.textarea;
        let cursor = area.cursor;
        let rows = area.lines.len();
        let below = CursorPosition { row: cursor.row + 1, col: 0 };
        area.edit_split_line(cursor, (cursor, below), false);
        area.cursor = below;
        area.selection = None;
        proof {
            let before = old(self).textarea@;
            let action = split_line(before.lines, cursor, (cursor, below));
            area@.lemma_made_by_first(before, action);
            area@.lemma_one_edit(before, seq![action]);
        }
    }

    /// Duplicates the cursor's row.
    pub fn duplicate_line(&mut self)
        requires
            old(self).textarea@.wf(),
        ensures
            final(self).textarea@ == old(self).textarea@.duplicated(),
            final(self).textarea@.wf(),
            final(self).textarea@.is_one_edit_of(old(self).textarea@),
    {
        let area = &mut self.textarea;
        let cursor = area.cursor;
        let rows = area.lines.len();
        let below = CursorPosition { row: cursor.row + 1, col: cursor.col };
        let mut block: Vec<String> = Vec::new();
        block.push(area.lines[cursor.row].clone());
        block.push(String::new());
        let at = CursorPosition { row: cursor.row, col: 0 };
        proof {
            assert(text_of(block@) =~= seq![area@.lines[cursor.row as int], Seq::empty()]);
            lemma_with_block(area@.lines, at, text_of(block@));
            assert(Seq::<char>::empty() + area@.lines[cursor.row as int].skip(0)
                =~= area@.lines[cursor.row as int]);
        }
        area.edit_insert_block(at, block, (cursor, below), false);
        area.cursor = below;
        area.selection = None;
        proof {
            let before = old(self).textarea@;
            let line = before.lines[cursor.row as int];
            assert(line.take(0) + line =~= line);
            assert(Seq::<char>::empty() + line.skip(0) =~= line);
            assert(area@.lines =~= before.lines.insert(cursor.row + 1, line));
            let action = insertion(
                before.lines,
                at,
                seq![before.lines[cursor.row as int], Seq::empty()],
                (cursor, below),
            );
            area@.lemma_made_by_first(before, action);
            area@.lemma_one_edit(before, seq![action]);
        }
    }

    /// Types `ch` as the opening half of a pair.
    pub fn pair(&mut self, ch: char)
        requires
            old(self).textarea@.wf(),
        ensures
            final(self).textarea@ == old(self).textarea@.paired(ch),
            final(self).textarea@.wf(),
            final(self).textarea@.is_one_edit_of(old(self).textarea@),
    {
        let area = &mut self.textarea;
        let cursor = area.cursor;
        let closer = closing_char(ch);
        match area.selection {
            None => {
                let _ = area.byte_position(cursor);
                let inner = CursorPosition { row: cursor.row, col: cursor.col + 1 };
                area.edit_insert_char(cursor, ch, (cursor, inner), false);
                let ghost opened = area@;
                area.edit_insert_char(inner, closer, (inner, inner), true);
                area.cursor = inner;
                proof {
                    let before = old(self).textarea@;
                    let first = insert_char(before.lines, cursor, ch, (cursor, inner));
                    let second = insert_char(opened.lines, inner, closer, (inner, inner));
                    opened.lemma_made_by_first(before, first);
                    area@.lemma_made_by_next(before, opened, seq![first], second);
                    area@.lemma_one_edit(before, seq![first].push(second));
                }
            },
            Some(anchor) => {
                let (start, end) = CursorPosition::ordered(cursor, anchor);
                let _ = area.byte_position(cursor);
                let _ = area.byte_position(anchor);
                let same = start.row == end.row;
                let first = cursor.is_before(&anchor);
                let cursor_after = if same || first {
                    CursorPosition { row: cursor.row, col: cursor.col + 1 }
                } else {
                    cursor
                };
                let anchor_after = if same || !first {
                    CursorPosition { row: anchor.row, col: anchor.col + 1 }
                } else {
                    anchor
                };
                let close_at = if same {
                    CursorPosition { row: end.row, col: end.col + 1 }
                } else {
                    end
                };
                area.edit_insert_char(start, ch, (cursor, cursor_after), false);
                let ghost opened = area@;
                area.edit_insert_char(close_at, closer, (cursor_after, cursor_after), true);
                area.cursor = cursor_after;
                area.selection = Some(anchor_after);
                proof {
                    let before = old(self).textarea@;
                    let first = insert_char(before.lines, start, ch, (cursor, cursor_after));
                    let second = insert_char(
                        opened.lines,
                        close_at,
                        closer,
                        (cursor_after, cursor_after),
                    );
                    opened.lemma_made_by_first(before, first);
                    area@.lemma_made_by_next(before, opened, seq![first], second);
                    area@.lemma_one_edit(before, seq![first].push(second));
                }
            },
        }
    }

    /// Tab: indents at the cursor, or the rows that the selection touches.
    pub fn indent(&mut self)
        requires
            old(self).textarea@.wf(),
        ensures
            final(self).textarea@ == old(self).textarea@.indented(),
            final(self).textarea@.wf(),
            final(self).textarea@.is_one_edit_of(old(self).textarea@),
    {
        let area = &mut self.textarea;
        let cursor = area.cursor;
        let step = area.indent.step();
        let _ = area.byte_position(cursor);
        let after = CursorPosition { row: cursor.row, col: cursor.col + step };
        match area.selection {
            None => {
                area.indent_here(after);
            },
            Some(anchor) => {
                area.indent_selection(anchor, after, step);
            },
        }
    }

    /// Back-Tab: outdents the rows that the selection touches, or the
    /// cursor's row. Returns whether any row has changed.
    pub fn outdent(&mut self) -> (changed: bool)
        requires
            old(self).textarea@.wf(),
        ensures
            final(self).textarea@ == old(self).textarea@.outdented(),
            final(self).textarea@.wf(),
            changed == old(self).textarea@.outdent_changes(),
            !changed ==> final(self).textarea@ == old(self).textarea@,
            changed ==> final(self).textarea@.is_one_edit_of(old(self).textarea@),
    {
        let ghost before = self.textarea@;
        let area = &mut self.textarea;
        let cursor = area.cursor;
        let step = area.indent.step();
        let after = area.outdent_position(cursor, step);
        match area.selection {
            None => {
                let changed = area.outdent_rows(cursor.row, cursor.row, after);
                area.cursor = after;
                proof {
                    if changed {
                        area@.lemma_one_edit(before, before.outdent_chain(cursor.row as int, 1));
                    }
                }
                changed
            },
            Some(anchor) => {
                let (start, end) = CursorPosition::ordered(cursor, anchor);
                let anchor_after = area.outdent_position(anchor, step);
                let changed = area.outdent_rows(start.row, end.row, after);
                area.cursor = after;
                area.selection = Some(anchor_after);
                proof {
                    if changed {
                        area@.lemma_one_edit(
                            before,
                            before.outdent_chain(
                                start.row as int,
                                (end.row - start.row + 1) as nat,
                            ),
                        );
                    }
                }
                changed
            },
        }
    }

    /// Moves the selected rows, or the cursor's row, up by one row. Returns
    /// whether there was a row above them.
    pub fn move_lines_up(&mut self) -> (changed: bool)
        requires
            old(self).textarea@.wf(),
        ensures
            final(self).textarea@ == old(self).textarea@.raised(),
            final(self).textarea@.wf(),
            changed == old(self).textarea@.can_raise(),
            changed ==> final(self).textarea@.is_one_edit_of(old(self).textarea@),
    {
        let ghost before = self.textarea@;
        let area = &mut self.textarea;
        let (first, last) = area.selected_rows();
        if first == 0 {
            return false;
        }
        let cursor = area.cursor;
        area.raise_rows(first, last);
        area.cursor = CursorPosition { row: cursor.row - 1, col: cursor.col };
        area.selection = match area.selection {
            Some(anchor) => Some(CursorPosition { row: anchor.row - 1, col: anchor.col }),
            None => None,
        };
        proof {
            area@.lemma_one_edit(
                before,
                before.raise_chain(first as int, (last - first + 1) as nat),
            );
        }
        true
    }

    /// Moves the selected rows, or the cursor's row, down by one row.
    /// Returns whether there was a row below them.
    pub fn move_lines_down(&mut self) -> (changed: bool)
        requires
            old(self).textarea@.wf(),
        ensures
            final(self).textarea@ == old(self).textarea@.lowered(),
            final(self).textarea@.wf(),
            changed == old(self).textarea@.can_lower(),
            changed ==> final(self).textarea@.is_one_edit_of(old(self).textarea@),
    {
        let ghost before = self.textarea@;
        let area = &mut self.textarea;
        let (first, last) = area.selected_rows();
        if last >= area.lines.len() - 1 {
            return false;
        }
        let cursor = area.cursor;
        area.lower_rows(first, last);
        area.cursor = CursorPosition { row: cursor.row + 1, col: cursor.col };
        area.selection = match area.selection {
            Some(anchor) => Some(CursorPosition { row: anchor.row + 1, col: anchor.col }),
            None => None,
        };
        proof {
            area@.lemma_one_edit(
                before,
                before.lower_chain(last as int, (last - first + 1) as nat),
            );
        }
        true
    }

    /// Handles one input event: the commands of the editor, and for any
    /// other key those of the text buffer. Returns whether the event was an
    /// edit of the text.
    pub fn input(&mut self, input: Input) -> (changed: bool)
        requires
            old(self).textarea@.wf(),
        ensures
            final(self).textarea@ == editor_input(old(self).textarea@, input),
            final(self).textarea@.wf(),
            changed == editor_changes(old(self).textarea@, input),
            editor_edits(old(self).textarea@, input) ==> final(self).textarea@.is_one_edit_of(
                old(self).textarea@,
            ),
    {
        let Input { key, ctrl, alt, shift } = input;
        match key {
            Key::Enter if !ctrl && !alt => {
                self.enter();
                true
            },
            Key::Tab if !ctrl && !alt => {
                self.indent();
                true
            },
            Key::BackTab if !ctrl && !alt => self.outdent(),
            Key::Up if !ctrl && alt && !shift => self.move_lines_up(),
            Key::Down if !ctrl && alt && !shift => self.move_lines_down(),
            Key::Char(ch) => {
                if ch == 'd' && ctrl && !alt && !shift {
                    self.duplicate_line();
                    true
                } else if is_opener(ch, self.textarea.selection().is_some()) {
                    self.pair(ch);
                    true
                } else {
                    self.textarea.input(input)
                }
            },
            _ => self.textarea.input(input),
        }
    }
}

/// Whether `ch` opens a pair.
pub fn is_opener(ch: char, selecting: bool) -> (r: bool)
    ensures
        r == opens_pair(ch, selecting),
{
    ch == '(' || ch == '[' || ch == '{' || (selecting && (ch == '\'' || ch == '"'))
}

/// The state that the buffer of an editor is in after `input`.
pub open spec fn editor_input(state: TextState, input: Input) -> TextState {
    let Input { key, ctrl, alt, shift } = input;
    match key {
        Key::Enter => if !ctrl && !alt {
            state.entered()
        } else {
            state.after_input(input)
        },
        Key::Tab => if !ctrl && !alt {
            state.indented()
        } else {
            state.after_input(input)
        },
        Key::BackTab => if !ctrl && !alt {
            state.outdented()
        } else {
            state.after_input(input)
        },
        Key::Up => if !ctrl && alt && !shift {
            state.raised()
        } else {
            state.after_input(input)
        },
        Key::Down => if !ctrl && alt && !shift {
            state.lowered()
        } else {
            state.after_input(input)
        },
        Key::Char(ch) => if ch == 'd' && ctrl && !alt && !shift {
            state.duplicated()
        } else if opens_pair(ch, state.selection is Some) {
            state.paired(ch)
        } else {
            state.after_input(input)
        },
        _ => state.after_input(input),
    }
}

/// Whether `input` makes an edit of the text of an editor that is recorded in
/// the history.
pub open spec fn editor_edits(state: TextState, input: Input) -> bool {
    let Input { key, ctrl, alt, shift } = input;
    match key {
        Key::Enter => (!ctrl && !alt) || state.input_edits(input),
        Key::Tab => (!ctrl && !alt) || state.input_edits(input),
        Key::BackTab => (!ctrl && !alt && state.outdent_changes()) || (!(!ctrl && !alt)
            && state.input_edits(input)),
        Key::Up => !ctrl && alt && !shift && state.can_raise(),
        Key::Down => !ctrl && alt && !shift && state.can_lower(),
        Key::Char(ch) => (ch == 'd' && ctrl && !alt && !shift) || opens_pair(
            ch,
            state.selection is Some,
        ) || state.input_edits(input),
        _ => state.input_edits(input),
    }
}

/// Whether an editor reports `input` as a change of the text.
pub open spec fn editor_changes(state: TextState, input: Input) -> bool {
    let Input { key, ctrl, alt, shift } = input;
    match key {
        Key::Enter => !ctrl && !alt,
        Key::Tab => !ctrl && !alt,
        Key::BackTab => !ctrl && !alt && state.outdent_changes(),
        Key::Up => !ctrl && alt && !shift && state.can_raise(),
        Key::Down => !ctrl && alt && !shift && state.can_lower(),
        Key::Char(ch) => (ch == 'd' && ctrl && !alt && !shift) || opens_pair(
            ch,
            state.selection is Some,
        ) || state.input_changes(input),
        _ => state.input_changes(input),
    }
}

} // verus!
