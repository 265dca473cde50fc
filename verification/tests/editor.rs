use ded::{CursorPosition, Editor, Indent, Input, Key, TextArea};

fn at(row: usize, col: usize) -> CursorPosition {
    CursorPosition { row, col }
}

fn lines(text: &[&str]) -> Vec<String> {
    text.iter().map(|l| l.to_string()).collect()
}

fn editor(text: &[&str], indent: Indent) -> Editor {
    Editor::new(TextArea::new(lines(text), indent))
}

fn key(key: Key) -> Input {
    Input { key, ctrl: false, alt: false, shift: false }
}

fn ctrl(key: Key) -> Input {
    Input { key, ctrl: true, alt: false, shift: false }
}

fn alt(key: Key) -> Input {
    Input { key, ctrl: false, alt: true, shift: false }
}

#[test]
fn enter_at_end_of_row() {
    let mut e = editor(&["abc", "def"], Indent::default());
    e.textarea.set_cursor(at(0, 3), false);
    assert!(e.input(key(Key::Enter)));
    assert_eq!(e.textarea.lines(), &lines(&["abc", "", "def"]));
    assert_eq!(e.textarea.cursor(), at(1, 0));
}

#[test]
fn enter_splits_the_row_and_undo_joins_it() {
    let mut e = editor(&["héllo"], Indent::default());
    e.textarea.set_cursor(at(0, 2), false);
    assert!(e.input(key(Key::Enter)));
    assert_eq!(e.textarea.lines(), &lines(&["hé", "llo"]));
    assert_eq!(e.textarea.cursor(), at(1, 0));
    assert!(e.input(ctrl(Key::Char('z'))));
    assert_eq!(e.textarea.lines(), &lines(&["héllo"]));
    assert_eq!(e.textarea.cursor(), at(0, 2));
}

#[test]
fn tab_indents_selected_rows_with_spaces() {
    let mut e = editor(&["  x", "  y"], Indent::with_spaces(4));
    e.textarea.set_cursor(at(0, 1), false);
    e.textarea.set_cursor(at(1, 3), true);
    assert!(e.input(key(Key::Tab)));
    assert_eq!(e.textarea.lines(), &lines(&["      x", "      y"]));
    assert_eq!(e.textarea.cursor(), at(1, 7));
    assert_eq!(e.textarea.selection(), Some(at(0, 5)));
    assert!(e.input(ctrl(Key::Char('z'))));
    assert_eq!(e.textarea.lines(), &lines(&["  x", "  y"]));
    assert_eq!(e.textarea.cursor(), at(1, 3));
    assert!(e.input(ctrl(Key::Char('y'))));
    assert_eq!(e.textarea.lines(), &lines(&["      x", "      y"]));
    assert_eq!(e.textarea.cursor(), at(1, 7));
}

#[test]
fn tab_indents_selected_rows_with_tabs() {
    let mut e = editor(&["a", "b", "c", "d"], Indent::Tabs);
    e.textarea.set_cursor(at(2, 1), false);
    e.textarea.set_cursor(at(0, 0), true);
    assert!(e.input(key(Key::Tab)));
    assert_eq!(e.textarea.lines(), &lines(&["\ta", "\tb", "\tc", "d"]));
    assert_eq!(e.textarea.cursor(), at(0, 1));
    assert_eq!(e.textarea.selection(), Some(at(2, 2)));
    assert!(e.input(ctrl(Key::Char('z'))));
    assert_eq!(e.textarea.lines(), &lines(&["a", "b", "c", "d"]));
    assert_eq!(e.textarea.cursor(), at(0, 0));
}

#[test]
fn tab_without_selection_inserts_at_the_cursor() {
    let mut e = editor(&["ab"], Indent::with_spaces(2));
    e.textarea.set_cursor(at(0, 1), false);
    assert!(e.input(key(Key::Tab)));
    assert_eq!(e.textarea.lines(), &lines(&["a  b"]));
    assert_eq!(e.textarea.cursor(), at(0, 3));
    let mut e = editor(&["ab"], Indent::Tabs);
    e.textarea.set_cursor(at(0, 1), false);
    assert!(e.input(key(Key::Tab)));
    assert_eq!(e.textarea.lines(), &lines(&["a\tb"]));
    assert_eq!(e.textarea.cursor(), at(0, 2));
}

#[test]
fn back_tab_without_indentation_changes_nothing() {
    let mut e = editor(&["x", " y", "\tz"], Indent::with_spaces(4));
    e.textarea.set_cursor(at(0, 1), false);
    e.textarea.set_cursor(at(2, 1), true);
    assert!(!e.input(key(Key::BackTab)));
    assert_eq!(e.textarea.lines(), &lines(&["x", " y", "\tz"]));
    assert_eq!(e.textarea.cursor(), at(2, 1));
    assert_eq!(e.textarea.selection(), Some(at(0, 1)));
    assert!(!e.input(ctrl(Key::Char('z'))));
    e.textarea.set_cursor(at(1, 0), false);
    assert!(!e.input(key(Key::BackTab)));
    assert!(!e.input(ctrl(Key::Char('z'))));
}

#[test]
fn back_tab_outdents_rows_that_are_indented() {
    let mut e = editor(&["    a", "b", "      c"], Indent::with_spaces(4));
    e.textarea.set_cursor(at(0, 2), false);
    e.textarea.set_cursor(at(2, 7), true);
    assert!(e.input(key(Key::BackTab)));
    assert_eq!(e.textarea.lines(), &lines(&["a", "b", "  c"]));
    assert_eq!(e.textarea.cursor(), at(2, 3));
    assert_eq!(e.textarea.selection(), Some(at(0, 0)));
    assert!(e.input(ctrl(Key::Char('z'))));
    assert_eq!(e.textarea.lines(), &lines(&["    a", "b", "      c"]));
    assert_eq!(e.textarea.cursor(), at(2, 7));
    let mut e = editor(&["\t\ta"], Indent::Tabs);
    e.textarea.set_cursor(at(0, 3), false);
    assert!(e.input(key(Key::BackTab)));
    assert_eq!(e.textarea.lines(), &lines(&["\ta"]));
    assert_eq!(e.textarea.cursor(), at(0, 2));
    assert_eq!(e.textarea.selection(), None);
}

#[test]
fn alt_up_and_down_move_rows() {
    let mut e = editor(&["a", "b", "c", "d"], Indent::default());
    assert!(!e.input(alt(Key::Up)));
    e.textarea.set_cursor(at(1, 1), false);
    e.textarea.set_cursor(at(2, 0), true);
    assert!(e.input(alt(Key::Up)));
    assert_eq!(e.textarea.lines(), &lines(&["b", "c", "a", "d"]));
    assert_eq!(e.textarea.cursor(), at(1, 0));
    assert_eq!(e.textarea.selection(), Some(at(0, 1)));
    assert!(!e.input(alt(Key::Up)));
    assert!(e.input(alt(Key::Down)));
    assert!(e.input(alt(Key::Down)));
    assert_eq!(e.textarea.lines(), &lines(&["a", "d", "b", "c"]));
    assert_eq!(e.textarea.cursor(), at(3, 0));
    assert_eq!(e.textarea.selection(), Some(at(2, 1)));
    assert!(!e.input(alt(Key::Down)));
    assert!(e.input(ctrl(Key::Char('z'))));
    assert_eq!(e.textarea.lines(), &lines(&["a", "b", "c", "d"]));
    assert_eq!(e.textarea.cursor(), at(2, 0));
    assert!(e.input(ctrl(Key::Char('z'))));
    assert!(e.input(ctrl(Key::Char('z'))));
    assert_eq!(e.textarea.lines(), &lines(&["a", "b", "c", "d"]));
    assert_eq!(e.textarea.cursor(), at(2, 0));
    assert!(e.input(ctrl(Key::Char('y'))));
    assert_eq!(e.textarea.lines(), &lines(&["b", "c", "a", "d"]));
    assert_eq!(e.textarea.cursor(), at(1, 0));
}

#[test]
fn duplicate_line() {
    let mut e = editor(&["ab", "cd"], Indent::default());
    e.textarea.set_cursor(at(0, 1), false);
    assert!(e.input(ctrl(Key::Char('d'))));
    assert_eq!(e.textarea.lines(), &lines(&["ab", "ab", "cd"]));
    assert_eq!(e.textarea.cursor(), at(1, 1));
    assert!(e.input(ctrl(Key::Char('z'))));
    assert_eq!(e.textarea.lines(), &lines(&["ab", "cd"]));
}

#[test]
fn brackets_are_paired() {
    let mut e = editor(&["ab"], Indent::default());
    e.textarea.set_cursor(at(0, 1), false);
    assert!(e.input(key(Key::Char('('))));
    assert_eq!(e.textarea.lines(), &lines(&["a()b"]));
    assert_eq!(e.textarea.cursor(), at(0, 2));
    assert!(e.input(key(Key::Char('"'))));
    assert_eq!(e.textarea.lines(), &lines(&["a(\")b"]));
    assert!(e.input(ctrl(Key::Char('z'))));
    assert!(e.input(ctrl(Key::Char('z'))));
    assert_eq!(e.textarea.lines(), &lines(&["ab"]));
    assert_eq!(e.textarea.cursor(), at(0, 1));
}

#[test]
fn pairs_wrap_the_selection() {
    let mut e = editor(&["one two"], Indent::default());
    e.textarea.set_cursor(at(0, 4), false);
    e.textarea.set_cursor(at(0, 7), true);
    assert!(e.input(key(Key::Char('\''))));
    assert_eq!(e.textarea.lines(), &lines(&["one 'two'"]));
    assert_eq!(e.textarea.cursor(), at(0, 8));
    assert_eq!(e.textarea.selection(), Some(at(0, 5)));
    assert_eq!(e.textarea.selected_text(false), Some(lines(&["two"])));
    let mut e = editor(&["one", "two"], Indent::default());
    e.textarea.set_cursor(at(1, 2), false);
    e.textarea.set_cursor(at(0, 1), true);
    assert!(e.input(key(Key::Char('{'))));
    assert_eq!(e.textarea.lines(), &lines(&["o{ne", "tw}o"]));
    assert_eq!(e.textarea.cursor(), at(0, 2));
    assert_eq!(e.textarea.selection(), Some(at(1, 2)));
    assert!(e.input(ctrl(Key::Char('z'))));
    assert_eq!(e.textarea.lines(), &lines(&["one", "two"]));
}

#[test]
fn other_keys_go_to_the_buffer() {
    let mut e = editor(&["ab"], Indent::default());
    assert!(e.input(key(Key::Char('x'))));
    assert!(!e.input(key(Key::Right)));
    assert_eq!(e.textarea.lines(), &lines(&["xab"]));
    assert_eq!(e.textarea.cursor(), at(0, 2));
}
