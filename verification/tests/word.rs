use ded::Word;

#[test]
fn test() {
    assert_eq!("   abc ".next_word(0), Some(6));
    assert_eq!("   a!bc ".next_word(0), Some(4));
    assert_eq!("   !!bc ".next_word(0), Some(5));
    assert_eq!("   !!   ".next_word(0), Some(5));

    assert_eq!("   abc  ".previous_word(8), Some(3));
    assert_eq!("   a!bc ".previous_word(8), Some(5));
    assert_eq!("   bc!! ".previous_word(8), Some(5));
    assert_eq!("   !!   ".previous_word(8), Some(3));
}

#[test]
fn words_are_counted_in_characters() {
    assert_eq!("é漢 zz!".next_word(0), Some(2));
    assert_eq!("é漢 zz!".next_word(2), Some(5));
    assert_eq!("é漢 zz!".next_word(5), None);
    assert_eq!("é漢 zz!".next_word(60), None);
    assert_eq!("é漢 zz!".previous_word(6), Some(5));
    assert_eq!("é漢 zz!".previous_word(5), Some(3));
    assert_eq!("é漢 zz!".previous_word(3), None);
    assert_eq!("é漢 zz!".previous_word(60), Some(5));
    assert_eq!("".next_word(0), None);
    assert_eq!("".previous_word(0), None);
    assert_eq!("   ".next_word(0), None);
    assert_eq!("   ".previous_word(3), None);
}
