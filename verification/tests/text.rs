use c2rust_test::text::{
    chars_of, followed_by, decimal_string, is_whitespace, push_text, split_words, CharClass,
};

#[test]
fn whitespace_is_the_unicode_property() {
    let mut n: u32 = 0;
    while n <= 0x10FFFF {
        if let Some(c) = char::from_u32(n) {
            assert_eq!(is_whitespace(c), c.is_whitespace(), "U+{:04X}", n);
        }
        n += 1;
    }
}

#[test]
fn classes_of_characters() {
    assert!(CharClass::Whitespace.contains(' '));
    assert!(CharClass::Whitespace.contains('\u{2028}'));
    assert!(!CharClass::Whitespace.contains('x'));
    assert!(CharClass::Only('=').contains('='));
    assert!(!CharClass::Only('=').contains(' '));
}

#[test]
fn characters_of_a_string() {
    assert_eq!(chars_of("aé€😀"), vec!['a', 'é', '€', '😀']);
    assert_eq!(chars_of(""), Vec::<char>::new());
}

#[test]
fn words_of_a_string() {
    assert_eq!(split_words("  a  bc\td \n"), vec!["a", "bc", "d"]);
    assert_eq!(split_words(""), Vec::<String>::new());
    assert_eq!(split_words(" \t "), Vec::<String>::new());
    assert_eq!(split_words("one"), vec!["one"]);
    let text = " x\u{85}y\u{1680}z é ";
    let expected: Vec<String> = text.split_whitespace().map(|s| s.to_string()).collect();
    assert_eq!(split_words(text), expected);
}

#[test]
fn decimal_of_numbers() {
    for n in [0, 1, 9, 10, 11, 99, 100, 101, 12345, -1, -10, -99, i32::MAX, i32::MIN] {
        assert_eq!(decimal_string(n), n.to_string());
    }
}

#[test]
fn strings_are_put_together() {
    assert_eq!(followed_by("ab", "cd"), "abcd");
    assert_eq!(followed_by("", ""), "");
    let mut v = vec!["a".to_string()];
    push_text(&mut v, "b");
    assert_eq!(v, vec!["a", "b"]);
}
