use ded::display::{count_tabs, display_col};
use ded::paint::{line_label, mark_matches, show_line, width_shown, Segment, Style};
use ded::viewport::scroll_to;
use ded::{dots, num_digits, spaces};
use ded::{CursorPosition, Fullscreen, Indent, Pattern, Settings, TextArea, Viewport};

fn at(row: usize, col: usize) -> CursorPosition {
    CursorPosition { row, col }
}

fn area(text: &[&str], indent: Indent) -> TextArea {
    TextArea::new(text.iter().map(|l| l.to_string()).collect(), indent)
}

fn pieces(segments: &[Segment]) -> Vec<(String, Style)> {
    segments.iter().map(|s| (s.text.clone(), s.style)).collect()
}

fn piece(text: &str, style: Style) -> (String, Style) {
    (text.to_string(), style)
}

#[test]
fn num_digits_spaces_dots() {
    assert_eq!(num_digits(0), 1);
    assert_eq!(num_digits(9), 1);
    assert_eq!(num_digits(10), 2);
    assert_eq!(num_digits(99999), 5);
    assert_eq!(num_digits(usize::MAX), usize::MAX.to_string().len() as u8);
    assert_eq!(spaces(0), "");
    assert_eq!(spaces(3), "   ");
    assert_eq!(dots(2), "··");
    assert_eq!(dots(255).chars().count(), 255);
}

#[test]
fn scroll_keeps_the_target_in_the_window() {
    assert_eq!(scroll_to(0, 10, 5), 0);
    assert_eq!(scroll_to(0, 10, 9), 0);
    assert_eq!(scroll_to(0, 10, 10), 1);
    assert_eq!(scroll_to(20, 10, 5), 5);
    assert_eq!(scroll_to(20, 10, 40), 31);
    assert_eq!(scroll_to(3, 0, 7), 7);
    assert_eq!(scroll_to(3, 1, 3), 3);
    assert_eq!(scroll_to(usize::MAX - 1, 10, usize::MAX), usize::MAX - 1);
}

#[test]
fn viewport_follows_the_cursor() {
    let mut v = Viewport::default();
    assert_eq!(v.rect(), (at(0, 0), at(0, 0)));
    v.update_size(10, 4);
    assert_eq!(v.width(), 10);
    assert_eq!(v.height(), 4);
    assert_eq!(v.rect(), (at(0, 0), at(3, 9)));
    v.update_view(at(7, 25));
    assert_eq!(v.position(), at(4, 16));
    assert_eq!(v.rect(), (at(4, 16), at(7, 25)));
    assert_eq!(v.terminal_cursor_position(at(7, 25)), Some((9, 3)));
    v.update_view(at(5, 20));
    assert_eq!(v.position(), at(4, 16));
    v.update_view(at(1, 2));
    assert_eq!(v.position(), at(1, 2));
    assert_eq!(v.terminal_cursor_position(at(0, 2)), None);
    assert_eq!(v.relative(at(3, 5)), Some((3, 2)));
    assert_eq!(v.relative(at(3, 1)), None);
}

#[test]
fn display_column_counts_tabs_and_wide_characters() {
    assert_eq!(count_tabs("\ta\t"), 2);
    assert_eq!(display_col("abc", 2, 4), 2);
    assert_eq!(display_col("\tab", 1, 4), 4);
    assert_eq!(display_col("\tab", 3, 4), 6);
    assert_eq!(display_col("漢字a", 2, 4), 4);
    assert_eq!(display_col("漢字a", 9, 4), 5);
    assert_eq!(width_shown("\ta\tb", 3, 4), 9);
    assert_eq!(width_shown("abc", 0, 4), 0);
}

#[test]
fn update_size_scrolls_to_the_cursor() {
    let mut t = area(&["a", "b", "c", "d", "e", "f", "0123456789abcdefghij"], Indent::default());
    assert_eq!(t.gutter(), 2);
    assert_eq!(t.update_size(12, 3), (at(0, 0), at(3, 10)));
    assert_eq!(t.terminal_cursor_position(), Some((2, 0)));
    t.set_cursor(at(6, 15), false);
    assert_eq!(t.cursor_column(), 15);
    assert_eq!(t.update_size(12, 3), (at(4, 6), at(7, 16)));
    assert_eq!(t.terminal_cursor_position(), Some((11, 2)));
    t.set_line_numbers(false);
    assert_eq!(t.gutter(), 0);
    assert_eq!(t.update_size(12, 3), (at(4, 6), at(7, 18)));
    assert_eq!(t.terminal_cursor_position(), Some((9, 2)));
    t.set_cursor(at(0, 0), false);
    assert_eq!(t.terminal_cursor_position(), None);
    assert_eq!(t.update_size(12, 0), (at(0, 0), at(0, 12)));
}

#[test]
fn shown_line_expands_tabs_and_marks_trailing_space() {
    assert_eq!(show_line("a\tb", 4), "a    b");
    assert_eq!(show_line("a \t", 2), "a···");
    assert_eq!(show_line("  a  ", 4), "  a··");
    assert_eq!(show_line("", 4), "");
    assert_eq!(show_line(" \t ", 3), "·····");
}

#[test]
fn labels_are_set_to_the_right() {
    let l = line_label(7, 3, false);
    assert_eq!(l.text, "  7 ");
    assert_eq!(l.style, Style::Number);
    let l = line_label(120, 3, true);
    assert_eq!(l.text, "120 ");
    assert_eq!(l.style, Style::CurrentNumber);
    assert_eq!(line_label(1234, 2, false).text, "1234 ");
    assert_eq!(line_label(0, 1, false).text, "0 ");
}

#[test]
fn matches_are_marked() {
    let p = Pattern::new("o+").unwrap();
    let mut segments = Vec::new();
    mark_matches(&mut segments, "foo é boo", Some(&p));
    assert_eq!(
        pieces(&segments),
        vec![
            piece("f", Style::Plain),
            piece("oo", Style::Found),
            piece(" é b", Style::Plain),
            piece("oo", Style::Found),
            piece("", Style::Plain),
        ]
    );
    let mut segments = Vec::new();
    mark_matches(&mut segments, "foo", None);
    assert_eq!(pieces(&segments), vec![piece("foo", Style::Plain)]);
}

#[test]
fn render_line_marks_selection_and_matches() {
    let mut t = area(&["\tfoo bar foo", "", "tail"], Indent::Tabs);
    t.set_search_pattern("foo").unwrap();
    t.set_cursor(at(0, 3), false);
    t.set_cursor(at(2, 2), true);
    assert_eq!(t.highlight(0), Some((6, 15)));
    assert_eq!(t.highlight(1), Some((0, 0)));
    assert_eq!(t.highlight(2), Some((0, 2)));
    assert_eq!(
        pieces(&t.render_line(0, 0, 100)),
        vec![
            piece("0 ", Style::Number),
            piece("    fo", Style::Plain),
            piece("o bar foo", Style::Selected),
            piece("", Style::Plain),
        ]
    );
    assert_eq!(
        pieces(&t.render_line(1, 0, 100)),
        vec![piece("1 ", Style::Number), piece(" ", Style::Selected)]
    );
    assert_eq!(
        pieces(&t.render_line(2, 1, 3)),
        vec![
            piece("2 ", Style::CurrentNumber),
            piece("", Style::Plain),
            piece("a", Style::Selected),
            piece("i", Style::Plain),
        ]
    );
    t.set_selection(None);
    t.set_line_numbers(false);
    assert_eq!(
        pieces(&t.render_line(0, 2, 100)),
        vec![
            piece("", Style::Plain),
            piece("  ", Style::Plain),
            piece("foo", Style::Found),
            piece(" bar ", Style::Plain),
            piece("foo", Style::Found),
            piece("", Style::Plain),
        ]
    );
}

#[test]
fn render_gives_the_rows_of_the_window() {
    let mut t = area(&["a", "b", "c", "d"], Indent::default());
    t.set_cursor(at(3, 0), false);
    let rows = t.render(10, 2);
    assert_eq!(rows.len(), 2);
    assert_eq!(pieces(&rows[0]), vec![piece("2 ", Style::Number), piece("c", Style::Plain)]);
    assert_eq!(pieces(&rows[1]), vec![piece("3 ", Style::CurrentNumber), piece("d", Style::Plain)]);
    let rows = t.render(10, 9);
    assert_eq!(rows.len(), 2);
    t.set_cursor(at(0, 0), false);
    assert_eq!(t.render(10, 9).len(), 4);
}

#[test]
fn fullscreen_cycles() {
    assert_eq!(Fullscreen::Off.toggle(), Fullscreen::Half);
    assert_eq!(Fullscreen::Half.toggle(), Fullscreen::Full);
    assert_eq!(Fullscreen::Full.toggle(), Fullscreen::Off);
    assert_eq!(Fullscreen::default(), Fullscreen::Off);
    let s = Settings::default();
    assert!(!s.line_numbers);
    assert_eq!(s.fullscreen, Fullscreen::Off);
    assert_eq!(s.indent.spaces(), "    ");
}

#[test]
fn indent_units() {
    assert_eq!(Indent::Tabs.spaces(), "    ");
    assert_eq!(Indent::Tabs.step(), 1);
    assert_eq!(Indent::with_spaces(2).spaces(), "  ");
    assert_eq!(Indent::with_spaces(2).step(), 2);
    assert_eq!(Indent::default().spaces(), "    ");
    assert!(matches!(Indent::Tabs.duplicate(), Indent::Tabs));
}
