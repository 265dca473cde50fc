use ded::{CursorPosition, Indent, Pattern, TextArea};

fn at(row: usize, col: usize) -> CursorPosition {
    CursorPosition { row, col }
}

fn area(text: &[&str]) -> TextArea {
    TextArea::new(text.iter().map(|l| l.to_string()).collect(), Indent::default())
}

#[test]
fn search_forward_does_not_wrap() {
    let mut t = area(&["foo here", "nothing", "still nothing"]);
    t.set_search_pattern("foo").unwrap();
    t.set_cursor(at(1, 2), false);
    assert_eq!(t.search_forward(), None);
    assert_eq!(t.search_backward(), Some((at(0, 0), at(0, 3))));
}

#[test]
fn search_forward_finds_the_next_match() {
    let mut t = area(&["é foo foo", "x", "a foo"]);
    assert_eq!(t.search_forward(), None);
    t.set_search_pattern("foo").unwrap();
    assert_eq!(t.search_forward(), Some((at(0, 2), at(0, 5))));
    t.set_cursor(at(0, 2), false);
    assert_eq!(t.search_forward(), Some((at(0, 6), at(0, 9))));
    t.set_cursor(at(0, 6), false);
    assert_eq!(t.search_forward(), Some((at(2, 2), at(2, 5))));
    t.set_cursor(at(0, 9), false);
    assert_eq!(t.search_forward(), Some((at(2, 2), at(2, 5))));
    t.set_cursor(at(2, 2), false);
    assert_eq!(t.search_forward(), None);
}

#[test]
fn search_backward_finds_the_last_match_before_the_cursor() {
    let mut t = area(&["foo é foo", "x", "a foo"]);
    t.set_search_pattern("fo+").unwrap();
    t.set_cursor(at(2, 5), false);
    assert_eq!(t.search_backward(), Some((at(2, 2), at(2, 5))));
    t.set_cursor(at(2, 4), false);
    assert_eq!(t.search_backward(), Some((at(2, 2), at(2, 4))));
    t.set_cursor(at(2, 2), false);
    assert_eq!(t.search_backward(), Some((at(0, 6), at(0, 9))));
    t.set_cursor(at(0, 6), false);
    assert_eq!(t.search_backward(), Some((at(0, 0), at(0, 3))));
    t.set_cursor(at(0, 0), false);
    assert_eq!(t.search_backward(), None);
}

#[test]
fn invalid_pattern_is_refused_and_the_old_one_stays() {
    let mut t = area(&["a(b"]);
    t.set_search_pattern("a").unwrap();
    let error = t.set_search_pattern("a(").unwrap_err();
    assert!(!error.message.is_empty());
    assert_eq!(t.search_pattern(), Some("a"));
    t.set_cursor(at(0, 3), false);
    assert_eq!(t.search_backward(), Some((at(0, 0), at(0, 1))));
    t.set_search_pattern("").unwrap();
    assert_eq!(t.search_pattern(), None);
    assert_eq!(t.search_backward(), None);
    assert!(t.set_search_pattern("(").is_err());
    assert_eq!(t.search_pattern(), None);
}

#[test]
fn pattern_finds_spans_in_columns() {
    let p = Pattern::new("b+").unwrap();
    assert_eq!(p.as_str(), "b+");
    assert_eq!(p.find_from("ébbé b", 0), Some((1, 3)));
    assert_eq!(p.find_from("ébbé b", 2), Some((2, 3)));
    assert_eq!(p.find_from("ébbé b", 3), Some((5, 6)));
    assert_eq!(p.find_from("ébbé b", 6), None);
    assert_eq!(p.find_from("ébbé b", 60), None);
    assert_eq!(p.find_last("ébbé b"), Some((5, 6)));
    assert_eq!(p.find_last("ééé"), None);
    assert_eq!(p.find_spans("ébbé b"), vec![(1, 3), (5, 6)]);
    assert_eq!(p.find_spans(""), Vec::<(usize, usize)>::new());
    assert!(Pattern::new("[").is_err());
}
