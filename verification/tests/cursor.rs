use ded::CursorPosition;
use std::cmp::Ordering;

fn at(row: usize, col: usize) -> CursorPosition {
    CursorPosition { row, col }
}

#[test]
fn order_is_by_row_then_column() {
    assert!(at(0, 5) < at(1, 0));
    assert!(at(1, 0) > at(0, 5));
    assert!(at(2, 3) < at(2, 4));
    assert!(at(2, 4) > at(2, 3));
    assert_eq!(at(2, 3).partial_cmp(&at(2, 3)), Some(Ordering::Equal));
    assert_eq!(at(0, 9).partial_cmp(&at(1, 0)), Some(Ordering::Less));
    assert_eq!(at(1, 0).partial_cmp(&at(0, 9)), Some(Ordering::Greater));
}

#[test]
fn order_agrees_with_pairs() {
    let values = [0usize, 1, 2, 7];
    for &r1 in &values {
        for &c1 in &values {
            for &r2 in &values {
                for &c2 in &values {
                    let a = at(r1, c1);
                    let b = at(r2, c2);
                    assert_eq!(a.partial_cmp(&b), (r1, c1).partial_cmp(&(r2, c2)));
                    assert_eq!(a.cmp(&b), (r1, c1).cmp(&(r2, c2)));
                    assert_eq!(a.is_before(&b), (r1, c1) < (r2, c2));
                    assert_eq!(a == b, (r1, c1) == (r2, c2));
                }
            }
        }
    }
}

#[test]
fn ordered_puts_the_earlier_first() {
    assert_eq!(CursorPosition::ordered(at(3, 1), at(1, 8)), (at(1, 8), at(3, 1)));
    assert_eq!(CursorPosition::ordered(at(1, 8), at(3, 1)), (at(1, 8), at(3, 1)));
    assert_eq!(CursorPosition::ordered(at(1, 1), at(1, 1)), (at(1, 1), at(1, 1)));
}

#[test]
fn default_is_the_start() {
    assert_eq!(CursorPosition::default(), at(0, 0));
}
