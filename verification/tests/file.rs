use ded::file::{detect_indent, load_lines, save_text};
use ded::clipboard::{join_text, split_text};
use ded::{CursorPosition, Editor, Indent};

fn lines(text: &[&str]) -> Vec<String> {
    text.iter().map(|l| l.to_string()).collect()
}

#[test]
fn load_splits_at_line_feeds() {
    assert_eq!(load_lines(""), lines(&[""]));
    assert_eq!(load_lines("a"), lines(&["a"]));
    assert_eq!(load_lines("a\n"), lines(&["a", ""]));
    assert_eq!(load_lines("a\nb"), lines(&["a", "b"]));
    assert_eq!(load_lines("a\r\nb\r\n"), lines(&["a", "b", ""]));
    assert_eq!(load_lines("a\r\nb\r"), lines(&["a", "b\r"]));
    assert_eq!(load_lines("\n\n"), lines(&["", "", ""]));
}

#[test]
fn save_ends_a_last_line_that_is_not_empty() {
    assert_eq!(save_text(&lines(&[""])), "");
    assert_eq!(save_text(&lines(&["a"])), "a\n");
    assert_eq!(save_text(&lines(&["a", ""])), "a\n");
    assert_eq!(save_text(&lines(&["a", "b"])), "a\nb\n");
    assert_eq!(save_text(&lines(&["", ""])), "\n");
}

#[test]
fn save_after_load_gives_the_text_back() {
    for text in ["", "\n", "a\n", "one\ntwo\n", "é\n\n漢\n"] {
        assert_eq!(save_text(&load_lines(text)), text);
    }
}

#[test]
fn indent_is_taken_from_the_first_indented_line() {
    assert!(matches!(detect_indent(&lines(&["a", "\tb", "  c"])), Indent::Tabs));
    match detect_indent(&lines(&["a", "  b", "\tc"])) {
        Indent::Spaces(run) => assert_eq!(run, "  "),
        Indent::Tabs => panic!("tabs"),
    }
    match detect_indent(&lines(&["a", "b"])) {
        Indent::Spaces(run) => assert_eq!(run, "    "),
        Indent::Tabs => panic!("tabs"),
    }
    match detect_indent(&lines(&["   "])) {
        Indent::Spaces(run) => assert_eq!(run, "   "),
        Indent::Tabs => panic!("tabs"),
    }
}

#[test]
fn editor_from_text() {
    let e = Editor::from_text("fn main() {\r\n\tbody\r\n}\r\n");
    assert_eq!(e.textarea.lines(), &lines(&["fn main() {", "\tbody", "}", ""]));
    assert!(matches!(e.textarea.indent(), Indent::Tabs));
    assert_eq!(e.textarea.cursor(), CursorPosition { row: 0, col: 0 });
    assert_eq!(e.to_text(), "fn main() {\n\tbody\n}\n");
}

#[test]
fn join_and_split() {
    assert_eq!(join_text(&lines(&["a", "b", ""])), "a\nb\n");
    assert_eq!(join_text(&lines(&["a"])), "a");
    assert_eq!(join_text(&Vec::new()), "");
    assert_eq!(split_text("a\nb\n"), lines(&["a", "b", ""]));
    assert_eq!(split_text(""), lines(&[""]));
    assert_eq!(split_text("x"), lines(&["x"]));
    for block in [lines(&["a"]), lines(&["", ""]), lines(&["é", "", "z"])] {
        assert_eq!(split_text(&join_text(&block)), block);
    }
}
