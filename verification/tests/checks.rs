use ded::text::column_at;
use ded::{BytePosition, CursorPosition, HistoryAction, Indent};

fn at(row: usize, col: usize) -> CursorPosition {
    CursorPosition { row, col }
}

fn byte(row: usize, col: usize) -> BytePosition {
    BytePosition { row, col }
}

fn lines(text: &[&str]) -> Vec<String> {
    text.iter().map(|l| l.to_string()).collect()
}

fn cursor() -> (CursorPosition, CursorPosition) {
    (at(0, 0), at(0, 0))
}

#[test]
fn column_at_finds_boundaries() {
    let line = "aé漢";
    assert_eq!(column_at(line, 0), Some(0));
    assert_eq!(column_at(line, 1), Some(1));
    assert_eq!(column_at(line, 2), None);
    assert_eq!(column_at(line, 3), Some(2));
    assert_eq!(column_at(line, 4), None);
    assert_eq!(column_at(line, 6), Some(3));
    assert_eq!(column_at(line, 7), None);
    assert_eq!(column_at("", 0), Some(0));
    assert_eq!(column_at("", 1), None);
}

#[test]
fn single_character_actions_need_a_boundary() {
    let text = lines(&["aé", "b"]);
    let insert = |row, col| HistoryAction::InsertChar { char: 'x', position: byte(row, col), cursor: cursor() };
    assert!(insert(0, 0).is_applicable(&text));
    assert!(insert(0, 3).is_applicable(&text));
    assert!(!insert(0, 2).is_applicable(&text));
    assert!(!insert(0, 4).is_applicable(&text));
    assert!(!insert(2, 0).is_applicable(&text));
    assert!(insert(1, 1).is_reversible(&text));
    let remove = |c, row, col| HistoryAction::RemoveChar { char: c, position: byte(row, col), cursor: cursor() };
    assert!(remove('é', 0, 1).is_reversible(&text));
    assert!(remove('x', 0, 1).is_applicable(&text));
    assert!(!remove('x', 0, 1).is_reversible(&text));
    assert!(!remove('é', 0, 3).is_applicable(&text));
    assert!(!remove('é', 0, 2).is_applicable(&text));
}

#[test]
fn line_break_actions() {
    let text = lines(&["aé", "b"]);
    let split = |row, col| HistoryAction::InsertLinebreak { position: byte(row, col), cursor: cursor() };
    assert!(split(1, 1).is_reversible(&text));
    assert!(!split(1, 2).is_applicable(&text));
    let join = |row, col| HistoryAction::RemoveLinebreak { position: byte(row, col), cursor: cursor() };
    assert!(join(0, 3).is_reversible(&text));
    assert!(join(0, 1).is_applicable(&text));
    assert!(!join(0, 1).is_reversible(&text));
    assert!(!join(1, 1).is_applicable(&text));
    assert!(!join(usize::MAX, 0).is_applicable(&text));
    let swap = |a, b| HistoryAction::SwapLines { lines: (a, b), cursor: cursor() };
    assert!(swap(0, 1).is_reversible(&text));
    assert!(swap(1, 1).is_reversible(&text));
    assert!(!swap(1, 2).is_applicable(&text));
}

#[test]
fn block_actions() {
    let text = lines(&["héad", "middle", "tail end"]);
    let insert = |block: &[&str], row, col| HistoryAction::InsertLines {
        lines: lines(block),
        position: byte(row, col),
        cursor: cursor(),
    };
    assert!(insert(&["a", "b"], 0, 3).is_reversible(&text));
    assert!(!insert(&["a", "b"], 0, 2).is_applicable(&text));
    assert!(insert(&[], 9, 9).is_reversible(&text));
    let remove = |block: &[&str], row, col| HistoryAction::RemoveLines {
        lines: lines(block),
        position: byte(row, col),
        cursor: cursor(),
    };
    assert!(remove(&[], 9, 9).is_reversible(&text));
    assert!(remove(&["éa"], 0, 1).is_reversible(&text));
    assert!(remove(&["xx"], 0, 2).is_applicable(&text) == false);
    assert!(remove(&["xxx"], 0, 1).is_applicable(&text));
    assert!(!remove(&["xxx"], 0, 1).is_reversible(&text));
    assert!(!remove(&["éadx"], 0, 1).is_applicable(&text));
    assert!(remove(&["ad", "middle", "tail"], 0, 3).is_reversible(&text));
    assert!(remove(&["ad", "middle", ""], 0, 3).is_reversible(&text));
    assert!(remove(&["ad", "muddle", "tail"], 0, 3).is_applicable(&text));
    assert!(!remove(&["ad", "muddle", "tail"], 0, 3).is_reversible(&text));
    assert!(!remove(&["xd", "middle", "tail"], 0, 3).is_reversible(&text));
    assert!(!remove(&["ad", "middle", "toil"], 0, 3).is_reversible(&text));
    assert!(!remove(&["ad", "middle", "tail", ""], 0, 3).is_applicable(&text));
    assert!(remove(&["", ""], 1, 6).is_reversible(&text));
    assert!(!remove(&["a", "b"], usize::MAX, 0).is_applicable(&text));
    assert!(!remove(&["a"], 0, usize::MAX).is_applicable(&text));
}

#[test]
fn indent_validity() {
    assert!(Indent::Tabs.is_valid());
    assert!(Indent::with_spaces(1).is_valid());
    assert!(!Indent::with_spaces(0).is_valid());
    assert!(!Indent::Spaces(" x".to_string()).is_valid());
    assert!(!Indent::Spaces("\t".to_string()).is_valid());
}
