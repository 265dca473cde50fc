use ded::{BytePosition, CursorPosition, HistoryAction, Indent, Input, Key, TextArea};

fn at(row: usize, col: usize) -> CursorPosition {
    CursorPosition { row, col }
}

fn lines(text: &[&str]) -> Vec<String> {
    text.iter().map(|l| l.to_string()).collect()
}

fn area(text: &[&str]) -> TextArea {
    TextArea::new(lines(text), Indent::default())
}

fn key(key: Key) -> Input {
    Input { key, ctrl: false, alt: false, shift: false }
}

fn ctrl(key: Key) -> Input {
    Input { key, ctrl: true, alt: false, shift: false }
}

fn shift(key: Key) -> Input {
    Input { key, ctrl: false, alt: false, shift: true }
}

#[test]
fn new_buffer_has_a_line() {
    let t = TextArea::new(Vec::new(), Indent::default());
    assert_eq!(t.lines(), &lines(&[""]));
    assert_eq!(t.cursor(), at(0, 0));
    assert_eq!(t.selection(), None);
    assert!(t.line_numbers());
}

#[test]
fn set_cursor_ignores_positions_outside_the_text() {
    let mut t = area(&["abc", "de"]);
    t.set_cursor(at(1, 2), false);
    assert_eq!(t.cursor(), at(1, 2));
    t.set_cursor(at(1, 3), false);
    assert_eq!(t.cursor(), at(1, 2));
    t.set_cursor(at(2, 0), true);
    assert_eq!(t.cursor(), at(1, 2));
    assert_eq!(t.selection(), None);
    t.set_selection(Some(at(0, 4)));
    assert_eq!(t.selection(), None);
    t.set_selection(Some(at(0, 3)));
    assert_eq!(t.selection(), Some(at(0, 3)));
    t.set_selection(None);
    assert_eq!(t.selection(), None);
}

#[test]
fn set_cursor_with_shift_starts_a_selection() {
    let mut t = area(&["abc", "de"]);
    t.set_cursor(at(0, 1), false);
    t.set_cursor(at(1, 1), true);
    assert_eq!(t.selection(), Some(at(0, 1)));
    t.set_cursor(at(1, 2), true);
    assert_eq!(t.selection(), Some(at(0, 1)));
    t.set_cursor(at(0, 0), false);
    assert_eq!(t.selection(), None);
}

#[test]
fn undo_and_redo_treat_a_chain_as_one_step() {
    let mut t = area(&["abc"]);
    let c = t.do_action(HistoryAction::InsertChar {
        char: 'x',
        position: BytePosition { row: 0, col: 1 },
        cursor: (at(0, 1), at(0, 2)),
    });
    assert_eq!(c, at(0, 2));
    let before = t.lines().clone();
    let c = t.do_action(HistoryAction::InsertChar {
        char: '(',
        position: BytePosition { row: 0, col: 0 },
        cursor: (at(0, 2), at(0, 3)),
    });
    assert_eq!(c, at(0, 3));
    t.do_action_chain(HistoryAction::InsertLinebreak {
        position: BytePosition { row: 0, col: 3 },
        cursor: (at(0, 3), at(1, 0)),
    });
    let c = t.do_action_chain(HistoryAction::InsertLines {
        lines: lines(&["1", "2"]),
        position: BytePosition { row: 1, col: 0 },
        cursor: (at(1, 0), at(2, 1)),
    });
    assert_eq!(c, at(2, 1));
    let after = t.lines().clone();
    assert_eq!(after, lines(&["(ax", "1", "2bc"]));

    assert_eq!(t.undo_action(), Some(at(0, 2)));
    assert_eq!(t.lines(), &before);
    assert_eq!(t.redo_action(), Some(at(2, 1)));
    assert_eq!(t.lines(), &after);
    assert_eq!(t.redo_action(), None);
    assert_eq!(t.undo_action(), Some(at(0, 2)));
    assert_eq!(t.undo_action(), Some(at(0, 1)));
    assert_eq!(t.lines(), &lines(&["abc"]));
    assert_eq!(t.undo_action(), None);
    assert_eq!(t.redo_action(), Some(at(0, 2)));
    assert_eq!(t.lines(), &before);
    assert_eq!(t.redo_action(), Some(at(2, 1)));
    assert_eq!(t.lines(), &after);
}

#[test]
fn do_action_forgets_what_could_be_redone() {
    let mut t = area(&["abc"]);
    t.input(key(Key::Char('x')));
    t.input(ctrl(Key::Char('z')));
    assert_eq!(t.lines(), &lines(&["abc"]));
    t.input(key(Key::Char('y')));
    assert!(!t.input(ctrl(Key::Char('y'))));
    assert_eq!(t.lines(), &lines(&["yabc"]));
}

#[test]
fn typing_inserts_at_the_cursor() {
    let mut t = area(&["héllo"]);
    t.set_cursor(at(0, 2), false);
    assert!(t.input(key(Key::Char('漢'))));
    assert_eq!(t.lines(), &lines(&["hé漢llo"]));
    assert_eq!(t.cursor(), at(0, 3));
    assert!(t.input(ctrl(Key::Char('z'))));
    assert_eq!(t.lines(), &lines(&["héllo"]));
    assert_eq!(t.cursor(), at(0, 2));
    assert!(t.input(ctrl(Key::Char('y'))));
    assert_eq!(t.lines(), &lines(&["hé漢llo"]));
    assert_eq!(t.cursor(), at(0, 3));
}

#[test]
fn typing_replaces_the_selection_as_one_step() {
    let mut t = area(&["one two", "three", "four five"]);
    t.set_cursor(at(0, 4), false);
    t.set_cursor(at(2, 4), true);
    assert!(t.input(key(Key::Char('X'))));
    assert_eq!(t.lines(), &lines(&["one X five"]));
    assert_eq!(t.cursor(), at(0, 5));
    assert_eq!(t.selection(), None);
    assert!(t.input(ctrl(Key::Char('z'))));
    assert_eq!(t.lines(), &lines(&["one two", "three", "four five"]));
    assert_eq!(t.cursor(), at(2, 4));
    assert!(t.input(ctrl(Key::Char('y'))));
    assert_eq!(t.lines(), &lines(&["one X five"]));
    assert_eq!(t.cursor(), at(0, 5));
}

#[test]
fn selected_text_of_one_row_and_of_several() {
    let mut t = area(&["one two", "thrée", "four five"]);
    assert_eq!(t.selected_text(false), None);
    assert_eq!(t.selected_text_single_line(), None);
    t.set_cursor(at(0, 4), false);
    t.set_cursor(at(0, 6), true);
    assert_eq!(t.selected_text(false), Some(lines(&["tw"])));
    assert_eq!(t.selected_text_single_line(), Some("tw"));
    t.set_cursor(at(2, 4), true);
    assert_eq!(t.selected_text_single_line(), None);
    assert_eq!(t.selected_text(false), Some(lines(&["two", "thrée", "four"])));
    assert_eq!(t.selection(), Some(at(0, 4)));
    assert_eq!(t.selected_text(true), Some(lines(&["two", "thrée", "four"])));
    assert_eq!(t.selection(), None);
    t.set_cursor(at(1, 5), false);
    t.set_selection(Some(at(1, 3)));
    assert_eq!(t.selected_text(false), Some(lines(&["ée"])));
    t.set_selection(Some(at(1, 5)));
    assert_eq!(t.selected_text(false), Some(lines(&[""])));
}

#[test]
fn backspace_and_delete() {
    let mut t = area(&["ab", "cd"]);
    assert!(!t.input(key(Key::Backspace)));
    t.set_cursor(at(1, 0), false);
    assert!(t.input(key(Key::Backspace)));
    assert_eq!(t.lines(), &lines(&["abcd"]));
    assert_eq!(t.cursor(), at(0, 2));
    assert!(t.input(key(Key::Backspace)));
    assert_eq!(t.lines(), &lines(&["acd"]));
    assert_eq!(t.cursor(), at(0, 1));
    assert!(t.input(key(Key::Delete)));
    assert_eq!(t.lines(), &lines(&["ad"]));
    assert_eq!(t.cursor(), at(0, 1));
    t.set_cursor(at(0, 2), false);
    assert!(!t.input(key(Key::Delete)));
    assert!(t.input(ctrl(Key::Char('z'))));
    assert_eq!(t.lines(), &lines(&["acd"]));
    assert!(t.input(ctrl(Key::Char('z'))));
    assert!(t.input(ctrl(Key::Char('z'))));
    assert_eq!(t.lines(), &lines(&["ab", "cd"]));
    assert_eq!(t.cursor(), at(1, 0));
    t.set_cursor(at(0, 2), false);
    assert!(t.input(key(Key::Delete)));
    assert_eq!(t.lines(), &lines(&["abcd"]));
    assert_eq!(t.cursor(), at(0, 2));
}

#[test]
fn word_wise_removal() {
    let mut t = area(&["foo bar.baz", "next"]);
    t.set_cursor(at(0, 7), false);
    assert!(t.input(ctrl(Key::Backspace)));
    assert_eq!(t.lines(), &lines(&["foo .baz", "next"]));
    assert_eq!(t.cursor(), at(0, 4));
    assert!(t.input(ctrl(Key::Delete)));
    assert_eq!(t.lines(), &lines(&["foo baz", "next"]));
    assert!(t.input(ctrl(Key::Delete)));
    assert_eq!(t.lines(), &lines(&["foo ", "next"]));
    assert!(t.input(ctrl(Key::Delete)));
    assert_eq!(t.lines(), &lines(&["foo next"]));
    assert_eq!(t.cursor(), at(0, 4));
    assert!(t.input(ctrl(Key::Backspace)));
    assert_eq!(t.lines(), &lines(&["next"]));
    assert_eq!(t.cursor(), at(0, 0));
    assert!(t.input(ctrl(Key::Backspace)));
    assert_eq!(t.lines(), &lines(&["next"]));
}

#[test]
fn cut_copy_paste() {
    let mut t = area(&["one two", "three"]);
    assert!(!t.input(ctrl(Key::Char('v'))));
    assert!(!t.input(ctrl(Key::Char('x'))));
    t.set_cursor(at(0, 4), false);
    t.set_cursor(at(1, 2), true);
    assert!(!t.input(ctrl(Key::Char('c'))));
    assert_eq!(t.clipboard(), Some(&"two\nth".to_string()));
    assert_eq!(t.selection(), Some(at(0, 4)));
    assert!(t.input(ctrl(Key::Char('x'))));
    assert_eq!(t.lines(), &lines(&["one ree"]));
    assert_eq!(t.cursor(), at(0, 4));
    assert_eq!(t.selection(), None);
    t.set_cursor(at(0, 0), false);
    assert!(t.input(ctrl(Key::Char('v'))));
    assert_eq!(t.lines(), &lines(&["two", "thone ree"]));
    assert_eq!(t.cursor(), at(1, 2));
    t.set_clipboard(Some("é漢".to_string()));
    t.set_cursor(at(1, 9), true);
    assert!(t.input(ctrl(Key::Char('v'))));
    assert_eq!(t.lines(), &lines(&["two", "thé漢"]));
    assert_eq!(t.cursor(), at(1, 4));
    assert!(t.input(ctrl(Key::Char('z'))));
    assert_eq!(t.lines(), &lines(&["two", "thone ree"]));
    t.set_clipboard(None);
    assert!(!t.input(ctrl(Key::Char('v'))));
}

#[test]
fn movement_keeps_the_cursor_in_the_text() {
    let mut t = area(&["long line", "é", "", "tail"]);
    t.set_cursor(at(0, 7), false);
    assert!(!t.input(key(Key::Down)));
    assert_eq!(t.cursor(), at(1, 1));
    assert!(!t.input(key(Key::Down)));
    assert_eq!(t.cursor(), at(2, 0));
    assert!(!t.input(key(Key::Up)));
    assert_eq!(t.cursor(), at(1, 0));
    assert!(!t.input(key(Key::Left)));
    assert_eq!(t.cursor(), at(0, 9));
    assert!(!t.input(key(Key::Right)));
    assert_eq!(t.cursor(), at(1, 0));
    assert!(!t.input(key(Key::End)));
    assert_eq!(t.cursor(), at(1, 1));
    assert!(!t.input(key(Key::Home)));
    assert_eq!(t.cursor(), at(1, 0));
    assert!(!t.input(Input { key: Key::Down, ctrl: true, alt: true, shift: false }));
    assert_eq!(t.cursor(), at(3, 0));
    assert!(!t.input(key(Key::Down)));
    assert_eq!(t.cursor(), at(3, 0));
    assert!(!t.input(key(Key::End)));
    assert!(!t.input(key(Key::Right)));
    assert_eq!(t.cursor(), at(3, 4));
    assert!(!t.input(Input { key: Key::Up, ctrl: true, alt: true, shift: false }));
    assert_eq!(t.cursor(), at(0, 4));
    assert!(!t.input(key(Key::Up)));
    assert!(!t.input(key(Key::Home)));
    assert!(!t.input(key(Key::Left)));
    assert_eq!(t.cursor(), at(0, 0));
}

#[test]
fn left_and_right_leave_a_selection_at_its_ends() {
    let mut t = area(&["abcdef"]);
    t.set_cursor(at(0, 4), false);
    t.set_selection(Some(at(0, 1)));
    t.input(key(Key::Left));
    assert_eq!(t.cursor(), at(0, 1));
    assert_eq!(t.selection(), None);
    t.set_cursor(at(0, 2), false);
    t.set_selection(Some(at(0, 5)));
    t.input(key(Key::Right));
    assert_eq!(t.cursor(), at(0, 5));
    assert_eq!(t.selection(), None);
    t.input(shift(Key::Left));
    assert_eq!(t.cursor(), at(0, 4));
    assert_eq!(t.selection(), Some(at(0, 5)));
}

#[test]
fn word_and_paragraph_movement() {
    let mut t = area(&["foo bar", "baz", "", "  ", "next one", "end"]);
    t.input(ctrl(Key::Right));
    assert_eq!(t.cursor(), at(0, 3));
    t.input(ctrl(Key::Right));
    assert_eq!(t.cursor(), at(0, 7));
    t.input(ctrl(Key::Right));
    assert_eq!(t.cursor(), at(1, 0));
    t.input(ctrl(Key::Left));
    assert_eq!(t.cursor(), at(0, 7));
    t.input(ctrl(Key::Left));
    assert_eq!(t.cursor(), at(0, 4));
    t.input(ctrl(Key::Left));
    assert_eq!(t.cursor(), at(0, 0));
    t.input(ctrl(Key::Left));
    assert_eq!(t.cursor(), at(0, 0));
    t.input(ctrl(Key::Down));
    assert_eq!(t.cursor(), at(2, 0));
    t.input(ctrl(Key::Down));
    assert_eq!(t.cursor(), at(4, 0));
    t.input(ctrl(Key::Down));
    assert_eq!(t.cursor(), at(5, 0));
    t.input(ctrl(Key::Up));
    assert_eq!(t.cursor(), at(4, 0));
    t.input(ctrl(Key::Up));
    assert_eq!(t.cursor(), at(0, 0));
}

#[test]
fn select_all_and_pages() {
    let mut t = area(&["a", "b", "c", "d", "e", "f"]);
    let _ = t.update_size(20, 2);
    t.input(key(Key::PageDown));
    assert_eq!(t.cursor(), at(2, 0));
    t.input(key(Key::PageDown));
    t.input(key(Key::PageDown));
    assert_eq!(t.cursor(), at(5, 0));
    t.input(key(Key::PageUp));
    assert_eq!(t.cursor(), at(3, 0));
    t.input(key(Key::PageUp));
    t.input(key(Key::PageUp));
    assert_eq!(t.cursor(), at(0, 0));
    assert!(!t.input(ctrl(Key::Char('a'))));
    assert_eq!(t.cursor(), at(5, 1));
    assert_eq!(t.selection(), Some(at(0, 0)));
}

#[test]
fn keys_without_a_command_change_nothing() {
    let mut t = area(&["abc"]);
    assert!(!t.input(key(Key::Null)));
    assert!(!t.input(key(Key::Esc)));
    assert!(!t.input(key(Key::F(3))));
    assert!(!t.input(Input { key: Key::Backspace, ctrl: false, alt: true, shift: false }));
    assert_eq!(t.lines(), &lines(&["abc"]));
    assert_eq!(t.cursor(), at(0, 0));
    assert_eq!(Input::default(), key(Key::Null));
    assert_eq!(Key::default(), Key::Null);
}
