// References to entities and characters in text.

use relaxng_validator::entities::{text_width, Txt};
use relaxng_validator::ValidatorError;

fn view(item: &Result<Txt, ValidatorError>) -> String {
    match item {
        Ok(Txt::Text(pos, s)) => format!("T{pos}:{s}"),
        Ok(Txt::Entity(pos, s)) => format!("E{pos}:{s}"),
        Ok(Txt::Char(pos, c)) => format!("C{pos}:{c}"),
        Err(ValidatorError::InvalidOrUnclosedEntity { span }) => {
            format!("!{}..{}", span.start, span.end)
        }
        Err(other) => panic!("{other:?}"),
    }
}

fn parts(pos: usize, text: &str) -> Vec<String> {
    relaxng_validator::parse_entities(pos, text).iter().map(view).collect()
}

#[test]
fn parse_entities() {
    let items = relaxng_validator::parse_entities(0, "foo &bar; blat");
    let mut iter = items.iter();
    assert!(matches!(iter.next(), Some(Ok(Txt::Text(0, s))) if s == "foo "));
    assert!(matches!(iter.next(), Some(Ok(Txt::Entity(5, s))) if s == "bar"));
    assert!(matches!(iter.next(), Some(Ok(Txt::Text(9, s))) if s == " blat"));
    assert!(iter.next().is_none());
}

#[test]
fn text_is_taken_apart_at_references() {
    assert_eq!(parts(0, ""), Vec::<String>::new());
    assert_eq!(parts(0, "plain"), ["T0:plain"]);
    assert_eq!(parts(100, "plain"), ["T100:plain"]);
    assert_eq!(parts(0, "&a;"), ["T0:", "E1:a"]);
    assert_eq!(parts(10, "x&a;&b;y"), ["T10:x", "E12:a", "T14:", "E15:b", "T17:y"]);
    assert_eq!(parts(0, "a;b"), ["T0:a;b"]);
    assert_eq!(parts(0, "&;"), ["T0:", "E1:"]);
    // offsets count bytes
    assert_eq!(parts(0, "é&a;𝄞&b;"), ["T0:é", "E3:a", "T5:𝄞", "E10:b"]);
    // an ampersand that ends the text is a reference that is not closed
    assert_eq!(parts(0, "a&"), ["T0:a", "!1..2"]);
    assert_eq!(parts(40, "a&"), ["T40:a", "!41..42"]);
    assert_eq!(parts(0, "&"), ["T0:", "!0..1"]);
}

#[test]
fn references_to_characters() {
    assert_eq!(parts(0, "&#65;"), ["T0:", "C1:A"]);
    assert_eq!(parts(0, "&#x41;"), ["T0:", "C2:A"]);
    assert_eq!(parts(0, "&#x1D11E;"), ["T0:", "C2:𝄞"]);
    assert_eq!(parts(0, "&#xe9;&#233;"), ["T0:", "C2:é", "T6:", "C7:é"]);
    assert_eq!(parts(0, "&#+65;"), ["T0:", "C1:A"]);
    assert_eq!(parts(0, "&#0;"), ["T0:", "C1:\0"]);
    assert_eq!(parts(0, "&#1114111;"), ["T0:", "C1:\u{10ffff}"]);
    // references to characters are placed in the document, as the others are
    assert_eq!(parts(10, "&#65;"), ["T10:", "C11:A"]);
    assert_eq!(parts(10, "ab&#x41;&c;"), ["T10:ab", "C14:A", "T18:", "E19:c"]);
}

#[test]
fn references_that_are_not_well_formed_end_the_parts() {
    assert_eq!(parts(0, "a&b"), ["T0:a", "!1..2"]);
    assert_eq!(parts(7, "a&b"), ["T7:a", "!8..9"]);
    assert_eq!(parts(0, "&#;x"), ["T0:", "!1..1"]);
    assert_eq!(parts(0, "&#x;x"), ["T0:", "!2..2"]);
    assert_eq!(parts(0, "&#xg;x"), ["T0:", "!2..2"]);
    assert_eq!(parts(0, "&#a;x"), ["T0:", "!1..1"]);
    assert_eq!(parts(0, "&#-1;x"), ["T0:", "!1..1"]);
    assert_eq!(parts(0, "&#X41;x"), ["T0:", "!1..1"]);
    // surrogates and what lies beyond the last character are no characters
    assert_eq!(parts(0, "&#xD800;"), ["T0:", "!2..2"]);
    assert_eq!(parts(0, "&#55296;"), ["T0:", "!1..1"]);
    assert_eq!(parts(0, "&#x110000;"), ["T0:", "!2..2"]);
    assert_eq!(parts(0, "&#4294967296;"), ["T0:", "!1..1"]);
    assert_eq!(parts(0, "&#x100000000;"), ["T0:", "!2..2"]);
    assert_eq!(parts(0, "ok&a;&#;&b;"), ["T0:ok", "E3:a", "T5:", "!6..6"]);
    assert_eq!(parts(100, "ok&#;"), ["T100:ok", "!103..103"]);
    assert_eq!(parts(100, "ok&#xg;"), ["T100:ok", "!104..104"]);
}

#[test]
fn the_width_of_a_text_is_its_length_in_bytes() {
    for text in ["", "abc", "é", "€", "𝄞", "aé€𝄞"] {
        assert_eq!(text_width(text), Some(text.len()));
    }
}
