use ded::text::{char_count, char_index, same_text, to_chars, utf8_width};
use ded::{ByteIndex, CharSlice};

#[test]
fn byte_index_counts_bytes_of_earlier_characters() {
    let line = "aé漢😀z";
    assert_eq!(line.byte_index(0), 0);
    assert_eq!(line.byte_index(1), 1);
    assert_eq!(line.byte_index(2), 3);
    assert_eq!(line.byte_index(3), 6);
    assert_eq!(line.byte_index(4), 10);
    assert_eq!(line.byte_index(5), 11);
    assert_eq!(line.byte_index(6), 11);
    assert_eq!(line.byte_index(usize::MAX), 11);
    assert_eq!("".byte_index(0), 0);
    assert_eq!("".byte_index(3), 0);
}

#[test]
fn char_index_is_the_inverse_of_byte_index() {
    let line = "aé漢😀z";
    for col in 0..=5 {
        assert_eq!(char_index(line, line.byte_index(col)), col);
    }
}

#[test]
fn utf8_width_is_the_encoded_length() {
    for c in ['a', '\u{7f}', '\u{80}', 'é', '\u{7ff}', '\u{800}', '漢', '\u{ffff}', '\u{10000}', '😀'] {
        assert_eq!(utf8_width(c), c.len_utf8());
    }
}

#[test]
fn char_slice_takes_columns() {
    let line = "aé漢😀z";
    assert_eq!(line.char_slice(1, 3), "é漢");
    assert_eq!(line.char_slice(0, 5), line);
    assert_eq!(line.char_slice(0, 99), line);
    assert_eq!(line.char_slice(3, usize::MAX), "😀z");
    assert_eq!(line.char_slice(5, 9), "");
    assert_eq!(line.char_slice(7, 9), "");
    assert_eq!(line.char_slice(3, 1), "");
    assert_eq!(line.char_slice(2, 2), "");
}

#[test]
fn char_count_and_to_chars() {
    assert_eq!(char_count("aé漢😀z"), 5);
    assert_eq!(char_count(""), 0);
    assert_eq!(to_chars("aé漢"), vec!['a', 'é', '漢']);
}

#[test]
fn same_text_compares_characters() {
    assert!(same_text("abc", "abc"));
    assert!(same_text("", ""));
    assert!(!same_text("abc", "abd"));
    assert!(!same_text("abc", "ab"));
}
