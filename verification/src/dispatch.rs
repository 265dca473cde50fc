//! Key input for the text buffer: which command each key stands for.

use crate::input::{Input, Key};
use crate::state::TextState;
use crate::textarea::TextArea;
use vstd::prelude::*;

verus! {

impl TextState {
    /// The state that the buffer is in after `input`.
    pub open spec fn after_input(self, input: Input) -> TextState {
        let Input { key, ctrl, alt, shift } = input;
        match key {
            Key::Up => if !alt && !ctrl {
                self.up(shift)
            } else if !alt && ctrl {
                self.paragraph_up(shift)
            } else if alt && ctrl {
                self.top(shift)
            } else {
                self
            },
            Key::Down => if !alt && !ctrl {
                self.down(shift)
            } else if !alt && ctrl {
                self.paragraph_down(shift)
            } else if alt && ctrl {
                self.bottom(shift)
            } else {
                self
            },
            Key::Left => if alt {
                self
            } else if ctrl {
                self.moved(self.word_left_target(), shift)
            } else {
                self.left(shift)
            },
            Key::Right => if alt {
                self
            } else if ctrl {
                self.moved(self.word_right_target(), shift)
            } else {
                self.right(shift)
            },
            Key::Home => if !alt && !ctrl {
                self.home(shift)
            } else {
                self
            },
            Key::End => if !alt && !ctrl {
                self.end(shift)
            } else {
                self
            },
            Key::PageUp => if !alt && !ctrl {
                self.page_up(shift)
            } else {
                self
            },
            Key::PageDown => if !alt && !ctrl {
                self.page_down(shift)
            } else {
                self
            },
            Key::Char(ch) => if ctrl && !alt && !shift && ch == 'a' {
                self.all_selected()
            } else if ctrl && !alt && !shift && ch == 'z' {
                self.undo_done()
            } else if ctrl && !alt && !shift && ch == 'y' {
                self.redo_done()
            } else if ctrl && !alt && !shift && ch == 'c' {
                self.copied()
            } else if ctrl && !alt && !shift && ch == 'x' {
                self.cut()
            } else if ctrl && !alt && !shift && ch == 'v' {
                self.pasted()
            } else {
                self.typed(ch)
            },
            Key::Backspace => if !alt {
                self.backspaced(ctrl)
            } else {
                self
            },
            Key::Delete => if !alt {
                self.deleted(ctrl)
            } else {
                self
            },
            _ => self,
        }
    }

    /// Whether `input` makes an edit of the text that is recorded in the
    /// history.
    pub open spec fn input_edits(self, input: Input) -> bool {
        let Input { key, ctrl, alt, shift } = input;
        match key {
            Key::Char(ch) => if ctrl && !alt && !shift && (ch == 'a' || ch == 'z' || ch == 'y'
                || ch == 'c') {
                false
            } else if ctrl && !alt && !shift && ch == 'x' {
                self.selection is Some
            } else if ctrl && !alt && !shift && ch == 'v' {
                self.can_paste()
            } else {
                true
            },
            Key::Backspace => !alt && self.backspace_edits(ctrl),
            Key::Delete => !alt && self.delete_edits(ctrl),
            _ => false,
        }
    }

    /// Whether `input` is reported as a change of the text.
    pub open spec fn input_changes(self, input: Input) -> bool {
        let Input { key, ctrl, alt, shift } = input;
        let cursor = self.cursor;
        match key {
            Key::Char(ch) => if ctrl && !alt && !shift && ch == 'a' {
                false
            } else if ctrl && !alt && !shift && ch == 'z' {
                self.undo.len() > 0
            } else if ctrl && !alt && !shift && ch == 'y' {
                self.redo.len() > 0
            } else if ctrl && !alt && !shift && ch == 'c' {
                false
            } else if ctrl && !alt && !shift && ch == 'x' {
                self.selection is Some
            } else if ctrl && !alt && !shift && ch == 'v' {
                self.can_paste()
            } else {
                true
            },
            Key::Backspace => !alt && (self.selection is Some || ctrl || cursor.row > 0
                || cursor.col > 0),
            Key::Delete => !alt && (self.selection is Some || ctrl || cursor.col
                < self.lines[cursor.row as int].len() || cursor.row + 1 < self.lines.len()),
            _ => false,
        }
    }
}

impl TextArea {
    /// Handles one input event. Returns whether it was an edit of the text.
    pub fn input(&mut self, input: Input) -> (changed: bool)
        requires
            old(self)@.wf(),
        ensures
            final(self)@ == old(self)@.after_input(input),
            final(self)@.wf(),
            changed == old(self)@.input_changes(input),
            old(self)@.input_edits(input) ==> final(self)@.is_one_edit_of(old(self)@),
    {
        let Input { key, ctrl, alt, shift } = input;
        match key {
            Key::Up => {
                if !alt && !ctrl {
                    self.move_up(shift);
                } else if !alt && ctrl {
                    self.move_paragraph_up(shift);
                } else if alt && ctrl {
                    self.move_top(shift);
                }
                false
            },
            Key::Down => {
                if !alt && !ctrl {
                    self.move_down(shift);
                } else if !alt && ctrl {
                    self.move_paragraph_down(shift);
                } else if alt && ctrl {
                    self.move_bottom(shift);
                }
                false
            },
            Key::Left => {
                if alt {
                } else if ctrl {
                    self.move_word_left(shift);
                } else {
                    self.move_left(shift);
                }
                false
            },
            Key::Right => {
                if alt {
                } else if ctrl {
                    self.move_word_right(shift);
                } else {
                    self.move_right(shift);
                }
                false
            },
            Key::Home => {
                if !alt && !ctrl {
                    self.move_home(shift);
                }
                false
            },
            Key::End => {
                if !alt && !ctrl {
                    self.move_end(shift);
                }
                false
            },
            Key::PageUp => {
                if !alt && !ctrl {
                    self.move_page_up(shift);
                }
                false
            },
            Key::PageDown => {
                if !alt && !ctrl {
                    self.move_page_down(shift);
                }
                false
            },
            Key::Char(ch) => {
                let command = ctrl && !alt && !shift;
                if command && ch == 'a' {
                    self.select_all();
                    false
                } else if command && ch == 'z' {
                    self.undo()
                } else if command && ch == 'y' {
                    self.redo()
                } else if command && ch == 'c' {
                    self.copy();
                    false
                } else if command && ch == 'x' {
                    self.cut()
                } else if command && ch == 'v' {
                    self.paste()
                } else {
                    self.type_char(ch);
                    true
                }
            },
            Key::Backspace => {
                if !alt {
                    self.backspace(ctrl)
                } else {
                    false
                }
            },
            Key::Delete => {
                if !alt {
                    self.delete(ctrl)
                } else {
                    false
                }
            },
            _ => false,
        }
    }
}

} // verus!
