use ded::{BytePosition, CursorPosition, HistoryAction};

fn at(row: usize, col: usize) -> CursorPosition {
    CursorPosition { row, col }
}

fn byte(row: usize, col: usize) -> BytePosition {
    BytePosition { row, col }
}

fn lines(text: &[&str]) -> Vec<String> {
    text.iter().map(|l| l.to_string()).collect()
}

#[test]
fn from_line_translates_the_column() {
    let position = BytePosition::from_line(at(3, 2), "é漢x");
    assert_eq!(position, byte(3, 5));
    assert_eq!(BytePosition::from_line(at(0, 9), "ab"), byte(0, 2));
}

#[test]
fn insert_linebreak_at_end_of_row() {
    let mut text = lines(&["abc", "def"]);
    let action = HistoryAction::InsertLinebreak { position: byte(0, 3), cursor: (at(0, 3), at(1, 0)) };
    let cursor = action.apply(&mut text);
    assert_eq!(text, lines(&["abc", "", "def"]));
    assert_eq!(cursor, at(1, 0));
    let cursor = action.invert().apply(&mut text);
    assert_eq!(text, lines(&["abc", "def"]));
    assert_eq!(cursor, at(0, 3));
}

#[test]
fn insert_and_remove_char() {
    let mut text = lines(&["héllo"]);
    let insert = HistoryAction::InsertChar { char: '漢', position: byte(0, 3), cursor: (at(0, 2), at(0, 3)) };
    assert_eq!(insert.apply(&mut text), at(0, 3));
    assert_eq!(text, lines(&["hé漢llo"]));
    let remove = insert.invert();
    assert_eq!(remove.apply(&mut text), at(0, 2));
    assert_eq!(text, lines(&["héllo"]));
}

#[test]
fn remove_linebreak_joins_rows() {
    let mut text = lines(&["ab", "cd", "ef"]);
    let action = HistoryAction::RemoveLinebreak { position: byte(0, 2), cursor: (at(1, 0), at(0, 2)) };
    assert_eq!(action.apply(&mut text), at(0, 2));
    assert_eq!(text, lines(&["abcd", "ef"]));
    let back = action.invert();
    assert_eq!(back.apply(&mut text), at(1, 0));
    assert_eq!(text, lines(&["ab", "cd", "ef"]));
}

#[test]
fn insert_single_line_block() {
    let mut text = lines(&["abef"]);
    let action = HistoryAction::InsertLines {
        lines: lines(&["cd"]),
        position: byte(0, 2),
        cursor: (at(0, 2), at(0, 4)),
    };
    assert_eq!(action.apply(&mut text), at(0, 4));
    assert_eq!(text, lines(&["abcdef"]));
    assert_eq!(action.invert().apply(&mut text), at(0, 2));
    assert_eq!(text, lines(&["abef"]));
}

#[test]
fn insert_then_remove_block_is_identity() {
    let original = lines(&["first", "sécond line", "third"]);
    let blocks: Vec<Vec<String>> = vec![
        lines(&["x"]),
        lines(&["x", "y"]),
        lines(&["", ""]),
        lines(&["one", "twö", "three", ""]),
        vec![],
    ];
    for block in blocks {
        let mut text = original.clone();
        let insert = HistoryAction::InsertLines {
            lines: block.clone(),
            position: byte(1, 3),
            cursor: (at(1, 2), at(1, 2)),
        };
        insert.apply(&mut text);
        if block.len() > 1 {
            assert_eq!(text.len(), original.len() + block.len() - 1);
            assert_eq!(text[1], format!("sé{}", block[0]));
            assert_eq!(text[block.len()], format!("{}cond line", block[block.len() - 1]));
        }
        let remove = HistoryAction::RemoveLines {
            lines: block,
            position: byte(1, 3),
            cursor: (at(1, 2), at(1, 2)),
        };
        remove.apply(&mut text);
        assert_eq!(text, original);
    }
}

#[test]
fn insert_multi_line_block_splices_rows() {
    let mut text = lines(&["headtail", "next"]);
    let action = HistoryAction::InsertLines {
        lines: lines(&["A", "B", "C"]),
        position: byte(0, 4),
        cursor: (at(0, 4), at(2, 1)),
    };
    assert_eq!(action.apply(&mut text), at(2, 1));
    assert_eq!(text, lines(&["headA", "B", "Ctail", "next"]));
}

#[test]
fn remove_multi_line_block() {
    let mut text = lines(&["headA", "B", "Ctail", "next"]);
    let action = HistoryAction::RemoveLines {
        lines: lines(&["A", "B", "C"]),
        position: byte(0, 4),
        cursor: (at(2, 1), at(0, 4)),
    };
    assert_eq!(action.apply(&mut text), at(0, 4));
    assert_eq!(text, lines(&["headtail", "next"]));
}

#[test]
fn swap_lines_and_back() {
    let mut text = lines(&["a", "b", "c"]);
    let action = HistoryAction::SwapLines { lines: (2, 0), cursor: (at(2, 0), at(0, 0)) };
    assert_eq!(action.apply(&mut text), at(0, 0));
    assert_eq!(text, lines(&["c", "b", "a"]));
    assert_eq!(action.invert().apply(&mut text), at(2, 0));
    assert_eq!(text, lines(&["a", "b", "c"]));
}

#[test]
fn invert_swaps_roles_and_cursors() {
    let action = HistoryAction::InsertChar { char: 'x', position: byte(1, 2), cursor: (at(1, 2), at(1, 3)) };
    match action.invert() {
        HistoryAction::RemoveChar { char, position, cursor } => {
            assert_eq!(char, 'x');
            assert_eq!(position, byte(1, 2));
            assert_eq!(cursor, (at(1, 3), at(1, 2)));
        }
        other => panic!("unexpected {:?}", other),
    }
    let action = HistoryAction::SwapLines { lines: (1, 2), cursor: (at(1, 0), at(2, 0)) };
    match action.invert() {
        HistoryAction::SwapLines { lines, cursor } => {
            assert_eq!(lines, (2, 1));
            assert_eq!(cursor, (at(2, 0), at(1, 0)));
        }
        other => panic!("unexpected {:?}", other),
    }
}
