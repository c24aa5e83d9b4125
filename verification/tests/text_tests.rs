use relaxng_validator::text::{normalize_whitespace, split_words, Blank};
use relaxng_validator::{is_whitespace_char, is_whitespace_str};

#[test]
fn whitespace_characters() {
    assert!(is_whitespace_char(' '));
    assert!(is_whitespace_char('\t'));
    assert!(is_whitespace_char('\r'));
    assert!(is_whitespace_char('\n'));
    assert!(!is_whitespace_char('x'));
    assert!(!is_whitespace_char('\u{a0}'));
}

#[test]
fn whitespace_strings() {
    assert!(is_whitespace_str(""));
    assert!(is_whitespace_str(" \t\r\n"));
    assert!(!is_whitespace_str(" a "));
}

#[test]
fn words_are_split_on_blanks() {
    assert_eq!(split_words("  one two\tthree ", Blank::Xml), vec!["one", "two", "three"]);
    assert_eq!(split_words("", Blank::Xml), Vec::<String>::new());
    assert_eq!(split_words("a\u{c}b", Blank::Xml), vec!["a\u{c}b"]);
    assert_eq!(split_words("a\u{c}b", Blank::Ascii), vec!["a", "b"]);
    assert_eq!(split_words("a\u{3000}b", Blank::Unicode), vec!["a", "b"]);
}

#[test]
fn white_space_is_collapsed() {
    assert_eq!(normalize_whitespace("  a   b \n c "), "a b c");
    assert_eq!(normalize_whitespace(""), "");
    assert_eq!(normalize_whitespace("abc"), "abc");
}
