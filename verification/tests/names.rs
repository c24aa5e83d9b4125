// XML names and white space.

use relaxng_validator::ncname::{
    is_name_char, is_name_start_char, is_nc_name_char, is_nc_name_start_char,
};
use relaxng_validator::number::{
    is_float_lexical, parse_i16, parse_i64, parse_i8, parse_integer, parse_u32, parse_u64, parse_u8,
    parse_usize,
};
use relaxng_validator::text::{char_count, chars_of, find_char, push_decimal, str_eq, string_of};
use relaxng_validator::{
    is_valid_name, is_valid_ncname, is_valid_nmtoken, is_valid_nmtokens, is_valid_qname_syntax,
};

#[test]
fn name_characters() {
    for c in ['a', 'Z', '_', 'é', '\u{37f}', '\u{3001}', '\u{10000}', '\u{effff}'] {
        assert!(is_nc_name_start_char(c) && is_nc_name_char(c) && is_name_start_char(c), "{c:?}");
    }
    for c in ['-', '.', '0', '9', '\u{b7}', '\u{300}', '\u{203f}'] {
        assert!(!is_nc_name_start_char(c) && is_nc_name_char(c) && is_name_char(c), "{c:?}");
    }
    for c in [' ', '!', '/', '@', '[', '\u{d7}', '\u{f7}', '\u{37e}', '\u{2000}', '\u{fffe}', '\u{f0000}'] {
        assert!(!is_nc_name_char(c) && !is_name_char(c), "{c:?}");
    }
    assert!(!is_nc_name_start_char(':') && !is_nc_name_char(':'));
    assert!(is_name_start_char(':') && is_name_char(':'));
}

#[test]
fn names() {
    assert!(is_valid_ncname("a") && is_valid_ncname("_a-b.c1") && is_valid_ncname("été"));
    assert!(!is_valid_ncname("") && !is_valid_ncname("1a") && !is_valid_ncname("a:b"));
    assert!(!is_valid_ncname("a b") && !is_valid_ncname(".a") && !is_valid_ncname("a\n"));
    assert!(is_valid_name("a:b") && is_valid_name(":") && is_valid_name("a"));
    assert!(!is_valid_name("") && !is_valid_name("-a") && !is_valid_name("a b"));
    assert!(is_valid_nmtoken("-a") && is_valid_nmtoken("1") && is_valid_nmtoken("a:b"));
    assert!(!is_valid_nmtoken("") && !is_valid_nmtoken("a b") && !is_valid_nmtoken("a/b"));
    assert!(is_valid_nmtokens("a") && is_valid_nmtokens(" a  b\tc\n"));
    assert!(!is_valid_nmtokens("") && !is_valid_nmtokens(" \t") && !is_valid_nmtokens("a /"));
    assert!(is_valid_qname_syntax("a") && is_valid_qname_syntax("a:b"));
    assert!(!is_valid_qname_syntax("") && !is_valid_qname_syntax(":a") && !is_valid_qname_syntax("a:"));
    assert!(!is_valid_qname_syntax("a:b:c") && !is_valid_qname_syntax("a:1") && !is_valid_qname_syntax("1:a"));
}

#[test]
fn integers_are_read_as_the_standard_library_reads_them() {
    for text in ["0", "7", "-7", "+7", "007", "127", "128", "-128", "-129", "", "+", "-", "1_0", " 1", "1 ", "1.0", "٣", "--1", "+-1", "99999999999999999999999999999999999999999"] {
        assert_eq!(parse_i8(text), text.parse::<i8>().ok(), "{text:?}");
        assert_eq!(parse_u8(text), text.parse::<u8>().ok(), "{text:?}");
        assert_eq!(parse_i16(text), text.parse::<i16>().ok(), "{text:?}");
        assert_eq!(parse_u32(text), text.parse::<u32>().ok(), "{text:?}");
        assert_eq!(parse_i64(text), text.parse::<i64>().ok(), "{text:?}");
        assert_eq!(parse_u64(text), text.parse::<u64>().ok(), "{text:?}");
        assert_eq!(parse_usize(text), text.parse::<usize>().ok(), "{text:?}");
    }
    for text in ["9223372036854775807", "9223372036854775808", "-9223372036854775808", "-9223372036854775809", "18446744073709551615", "18446744073709551616", "-0", "+0"] {
        assert_eq!(parse_i64(text), text.parse::<i64>().ok(), "{text:?}");
        assert_eq!(parse_u64(text), text.parse::<u64>().ok(), "{text:?}");
    }
    assert_eq!(parse_integer("-5", true, -10, 10), Some(-5));
    assert_eq!(parse_integer("-5", false, 0, 10), None);
    assert_eq!(parse_integer("11", true, -10, 10), None);
    assert_eq!(parse_integer("18446744073709551616", false, 0, 18446744073709551616), Some(18446744073709551616));
    assert_eq!(parse_integer("18446744073709551617", false, 0, 18446744073709551616), None);
}

#[test]
fn floating_point_forms_are_those_that_the_standard_library_reads() {
    for text in ["0", "1", "-1", "+1", "1.", ".1", "1.5", "1e5", "1E5", "1e+5", "1e-5", "1.5e10", ".5e1", "5.e1", "inf", "INF", "-inf", "+inf", "infinity", "Infinity", "-INFINITY", "nan", "NaN", "-nan", "+NaN", "", ".", "+", "-", "e", "e5", "1e", "1e+", "1e5.5", "1.5.5", "1..5", "++1", "1 ", " 1", "0x1", "1f", "in", "infinit", "infinityy", "na", "nann", "1_000", "١", ".e1", "+.e1", "1e1e1", "1ee1", "--inf"] {
        assert_eq!(is_float_lexical(text), text.parse::<f64>().is_ok(), "{text:?}");
        assert_eq!(is_float_lexical(text), text.parse::<f32>().is_ok(), "{text:?}");
    }
}

#[test]
fn strings_and_characters() {
    assert!(str_eq("", "") && str_eq("abc", "abc"));
    assert!(!str_eq("abc", "abd") && !str_eq("abc", "ab") && !str_eq("", "a"));
    assert_eq!(chars_of("aé𝄞"), vec!['a', 'é', '𝄞']);
    assert_eq!(char_count("aé𝄞"), 3);
    let v = chars_of("hello");
    assert_eq!(string_of(&v, 1, 4), "ell");
    assert_eq!(string_of(&v, 2, 2), "");
    assert_eq!(string_of(&v, 0, 5), "hello");
    assert_eq!(find_char(&v, 'l'), Some(2));
    assert_eq!(find_char(&v, 'h'), Some(0));
    assert_eq!(find_char(&v, 'x'), None);
    for n in [0usize, 7, 10, 42, 100, 12345, usize::MAX] {
        let mut s = String::from("n=");
        push_decimal(&mut s, n);
        assert_eq!(s, format!("n={n}"));
    }
}
