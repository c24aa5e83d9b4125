// The datatypes of XML Schema: which texts each type takes, with and
// without facets, and which facets are refused.

use relaxng_validator::compiler::{Compiler, DatatypeName, Param};
use relaxng_validator::facets::{FacetError, LengthFacet};
use relaxng_validator::qname::{Bindings, Namespaces, QNameVal, XsdDatatypeValues};
use relaxng_validator::span::Span;
use relaxng_validator::xsd::StringFacets;
use relaxng_validator::{XsdDatatypeError, XsdDatatypes};

fn param(name: &str, value: &str) -> Param {
    Param { span: Span::new(3, 9), name: name.to_string(), value: value.to_string() }
}

fn compile(name: &str, params: &[(&str, &str)]) -> Result<XsdDatatypes, XsdDatatypeError> {
    let params: Vec<Param> = params.iter().map(|(n, v)| param(n, v)).collect();
    Compiler.compile(&Span::new(0, 0), name, &params)
}

fn ty(name: &str, params: &[(&str, &str)]) -> XsdDatatypes {
    match compile(name, params) {
        Ok(t) => t,
        Err(e) => panic!("{name}: {e:?}"),
    }
}

fn accepts(name: &str, params: &[(&str, &str)], yes: &[&str], no: &[&str]) {
    let t = ty(name, params);
    for v in yes {
        assert!(t.is_valid(v), "{name} {params:?} should take {v:?}");
    }
    for v in no {
        assert!(!t.is_valid(v), "{name} {params:?} should refuse {v:?}");
    }
}

#[test]
fn it_works() {
    let c = Compiler;
    let param = Param { span: Span::new(0, 0), name: "length".to_string(), value: "1".to_string() };
    let res = c.compile(&Span::new(0, 0), "normalizedString", &[param]);
    assert!(matches!(
        res,
        Ok(XsdDatatypes::NormalizedString(StringFacets { len: LengthFacet::Length(1), pattern: None }))
    ))
}

#[test]
fn string_types() {
    accepts("string", &[], &["", "a", " a  b "], &[]);
    accepts("string", &[("length", "3")], &["abc", "a c", "äöü"], &["ab", "abcd", ""]);
    accepts("string", &[("minLength", "2")], &["ab", "abc"], &["a", ""]);
    accepts("string", &[("maxLength", "2")], &["", "ab"], &["abc"]);
    accepts("string", &[("minLength", "1"), ("maxLength", "2")], &["a", "ab"], &["", "abc"]);
    accepts("string", &[("maxLength", "2"), ("minLength", "1")], &["a", "ab"], &["", "abc"]);
    accepts("string", &[("pattern", "a+b")], &["ab", "aaab"], &["b", "abc", "xab", " ab"]);
    accepts("string", &[("pattern", "a|b")], &["a", "b"], &["ab", "xa", "bx"]);
    // the white space is collapsed before the facets are looked at
    accepts("normalizedString", &[("length", "3")], &["a b", "  a   b  ", "abc"], &["a  b c", "ab"]);
    accepts("normalizedString", &[("pattern", "a b")], &["a b", " a \n b "], &["ab"]);
    accepts("token", &[], &["", "a", "a b"], &[" a", "a ", "a  b", "a\tb"]);
    accepts("token", &[("maxLength", "3")], &["a b"], &["a b c"]);
}

#[test]
fn name_types() {
    accepts("NCName", &[], &["a", "_a", "a-b.c", "é1"], &["", "1a", "a:b", "-a", "a b"]);
    accepts("NCName", &[("maxLength", "2")], &["ab"], &["abc"]);
    accepts("Name", &[], &["a", "a:b", ":a", "_1"], &["", "1a", "a b", "-a"]);
    accepts("NMTOKEN", &[], &["a", "1a", "-a", "a:b", ".5"], &["", "a b", "a,b"]);
    accepts("NMTOKENS", &[], &["a", "a b", " 1 2\t3 "], &["", "  ", "a ,b"]);
    // the length of a list of tokens is the number of tokens
    accepts("NMTOKENS", &[("length", "2")], &["a b", "  long  tokens "], &["a", "a b c"]);
    accepts("NMTOKENS", &[("minLength", "2")], &["a b", "a b c"], &["a"]);
    accepts("ENTITY", &[], &["a"], &["a:b", ""]);
    accepts("ENTITIES", &[], &["a"], &["1"]);
    accepts("QName", &[], &["a", "a:b", "_x:y1"], &["", ":a", "a:", "a:b:c", "1:a", "a b"]);
    accepts("ID", &[], &["anything at all", ""], &[]);
    accepts("IDREF", &[("pattern", "[a-z]+")], &["abc"], &["ABC"]);
    accepts("anyURI", &[], &["", "http://example.com/a b", "::"], &[]);
    accepts("anyURI", &[("pattern", "urn:.*")], &["urn:x"], &["http://x"]);
    accepts("language", &[], &["en", "en-US", "x-klingon", "abcdefgh-1"], &["", "e n", "abcdefghi", "en-", "en_US"]);
    accepts("boolean", &[], &["true", "false", "1", "0"], &["", "TRUE", "yes", " true", "01"]);
}

#[test]
fn machine_integers() {
    accepts("byte", &[], &["0", "-128", "127", "+5", "007"], &["128", "-129", "", "1.0", "a", "+", "-", " 1"]);
    accepts("unsignedByte", &[], &["0", "255", "+255"], &["256", "-1", "-0"]);
    accepts("short", &[], &["-32768", "32767"], &["32768", "-32769"]);
    accepts("unsignedShort", &[], &["65535"], &["65536", "-1"]);
    accepts("int", &[], &["-2147483648", "2147483647"], &["2147483648", "-2147483649"]);
    accepts("unsignedInt", &[], &["4294967295"], &["4294967296"]);
    accepts("long", &[], &["-9223372036854775808", "9223372036854775807"], &["9223372036854775808"]);
    accepts(
        "unsignedLong",
        &[],
        &["18446744073709551615", "000000000000000000000000000001"],
        &["18446744073709551616", "99999999999999999999999999"],
    );
    accepts("int", &[("minInclusive", "10"), ("maxInclusive", "20")], &["10", "15", "20"], &["9", "21", "-15"]);
    accepts("int", &[("minExclusive", "10"), ("maxExclusive", "20")], &["11", "19"], &["10", "20"]);
    accepts("int", &[("maxInclusive", "20"), ("minExclusive", "10")], &["11", "20"], &["10", "21"]);
    accepts("int", &[("pattern", "[0-9]{2}")], &["42"], &["7", "-42", "123"]);
    accepts("short", &[("minInclusive", "-5")], &["-5", "0", "32767"], &["-6"]);
}

#[test]
fn unbounded_numbers() {
    let huge = "123456789012345678901234567890";
    accepts("integer", &[], &["0", "-1", "+1", huge, &format!("-{huge}")], &["", "1.0", "a", "1e3"]);
    accepts("positiveInteger", &[], &["1", huge], &["0", "-1", ""]);
    accepts("nonNegativeInteger", &[], &["0", "1", huge], &["-1"]);
    accepts("negativeInteger", &[], &["-1", &format!("-{huge}")], &["0", "1"]);
    accepts("nonPositiveInteger", &[], &["0", "-1"], &["1"]);
    accepts(
        "integer",
        &[("minInclusive", huge)],
        &[huge, "123456789012345678901234567891"],
        &["123456789012345678901234567889", "5"],
    );
    accepts("integer", &[("maxExclusive", "0")], &["-1"], &["0", "1"]);
    accepts("decimal", &[], &["0", "1.5", "-1.5", "+.5", "5.", "1e3", huge], &["", "a", "1.2.3"]);
    accepts(
        "decimal",
        &[("minInclusive", "1.5"), ("maxInclusive", "2.25")],
        &["1.5", "1.50", "2", "2.25", "2.250", "15e-1"],
        &["1.49", "2.251", "-2", "1.4999999999999999999999999"],
    );
    accepts("decimal", &[("minExclusive", "0"), ("maxExclusive", "1")], &["0.5", "0.000001"], &["0", "1", "0.0", "1.0"]);
    accepts("decimal", &[("fractionDigits", "2"), ("totalDigits", "5")], &["1.5"], &["x"]);
}

#[test]
fn floating_point_numbers() {
    let forms = ["0", "1", "-1.5", "+.5", "5.", "1e3", "1E-3", "1.5e+10", "inf", "-INF", "NaN", "infinity", "+Infinity"];
    let strangers = ["", ".", "e3", "1e", "1e+", "1.5.2", "0x10", " 1", "1 ", "in", "nanx", "--1", "1f"];
    accepts("double", &[], &forms, &strangers);
    accepts("float", &[], &forms, &strangers);
    accepts("double", &[("minInclusive", "1.5"), ("maxInclusive", "10")], &["1.5", "2", "1e1"], &["1.4", "11", "inf", "NaN", "-inf"]);
    accepts("double", &[("pattern", "[0-9]+")], &["12"], &["1.2", "inf"]);
    assert!(matches!(
        compile("double", &[("minInclusive", "inf")]),
        Err(XsdDatatypeError::Facet { type_label: "double", facet: FacetError::InvalidFloat(_, _) })
    ));
    accepts("float", &[("minExclusive", "-1"), ("maxExclusive", "1e2")], &["-0.5", "0", "99.5"], &["-1", "100", "1e2", "NaN", "inf"]);
    assert!(matches!(
        compile("double", &[("minInclusive", "1_000")]),
        Err(XsdDatatypeError::Facet { type_label: "double", facet: FacetError::InvalidFloat(_, _) })
    ));
    assert!(compile("double", &[("minInclusive", "1e3"), ("maxExclusive", "+1.5E+3")]).is_ok());
    assert!(matches!(
        compile("float", &[("maxInclusive", "NaN")]),
        Err(XsdDatatypeError::Facet { type_label: "float", facet: FacetError::InvalidFloat(_, _) })
    ));
    assert!(matches!(
        compile("float", &[("minInclusive", "2"), ("maxInclusive", "1")]),
        Err(XsdDatatypeError::Facet { type_label: "float", facet: FacetError::ConflictingFacet(_) })
    ));
    assert!(matches!(
        compile("float", &[("length", "1")]),
        Err(XsdDatatypeError::Facet { type_label: "float", facet: FacetError::InvalidFacet(_, _) })
    ));
}

#[test]
fn dates_and_times() {
    accepts("date", &[], &["2024-02-29", "0001-01-01"], &["2023-02-29", "2024-13-01", "2024-02-30", "", "2024-01-01T00:00:00", "01/02/2024"]);
    accepts(
        "dateTime",
        &[],
        &["2024-01-01T00:00:00", "2024-01-01T00:00:00Z", "-2024-01-01T23:59:59"],
        &["2024-01-01", "NOT-A-DATE", "2024-01-01 00:00:00", "2024-1-1T0:0:0"],
    );
    accepts("time", &[], &["12:34:56", "12:34:56.789", "12:34:56Z", "12:34:56+01:00"], &["12:34", "1:2:3", ""]);
    accepts("duration", &[], &["P1Y", "PT0H11M58.998S", "P1Y2M3DT4H5M6S", "P"], &["XPT0H11M58.998S", "1Y", ""]);
    accepts("gYear", &[], &["2024", "-0044", "12024", "2024Z", "2024+01:00"], &["24", "", "2024-01"]);
    accepts("gYearMonth", &[], &["2024-01", "2024-12Z"], &["2024", "2024-1"]);
    accepts("gMonth", &[], &["--01", "--12Z"], &["01", "-01", "--1"]);
    accepts("gMonthDay", &[], &["--01-31", "--12-25+02:00"], &["--0131", "01-31"]);
    accepts("gDay", &[], &["---01", "---31Z"], &["--01", "01"]);
    accepts("gYear", &[("pattern", "20[0-9]{2}")], &["2024"], &["1999", "2024Z"]);
}

#[test]
fn binary_types() {
    accepts("hexBinary", &[], &["", "00", "DEADbeef"], &["0", "0g", "abc", " 00"]);
    // the length of hexadecimal data is the number of octets
    accepts("hexBinary", &[("length", "2")], &["0a0b"], &["0a", "0a0b0c"]);
    accepts("hexBinary", &[("maxLength", "1")], &["", "ff"], &["ffff"]);
    accepts("base64Binary", &[], &["", "AAAA", "AA==", "AAA=", "AA AA\nAA=="], &["A-AA", "AA===", "=AAA"]);
    // the length of base64 data is the number of octets that it encodes
    accepts("base64Binary", &[("length", "3")], &["AAAA", " AA AA "], &["AA==", "AAAAAAAA"]);
    accepts("base64Binary", &[("length", "1")], &["AA=="], &["AAA=", "AAAA"]);
    accepts("base64Binary", &[("length", "2")], &["AAA="], &["AA=="]);
    accepts("base64Binary", &[("length", "0")], &["", "="], &["AAAA"]);
    accepts("base64Binary", &[("minLength", "4")], &["AAAAAAAA"], &["AAAA"]);
}

#[test]
fn unknown_types_and_facets_are_refused() {
    match compile("nonsense", &[]) {
        Err(XsdDatatypeError::UnsupportedDatatype { span, name }) => {
            assert_eq!(name, "nonsense");
            assert_eq!(span, Span::new(0, 0));
        }
        other => panic!("{:?}", other.err()),
    }
    match compile("string", &[("minInclusive", "1")]) {
        Err(XsdDatatypeError::Facet { type_label, facet: FacetError::InvalidFacet(span, name) }) => {
            assert_eq!(type_label, "string");
            assert_eq!(span, Span::new(3, 9));
            assert_eq!(name, "minInclusive");
        }
        other => panic!("{:?}", other.err()),
    }
    assert!(matches!(
        compile("int", &[("length", "1")]),
        Err(XsdDatatypeError::Facet { type_label: "int", facet: FacetError::InvalidFacet(_, _) })
    ));
    assert!(matches!(
        compile("NCName", &[("pattern", "a")]),
        Err(XsdDatatypeError::Facet { type_label: "NCName", facet: FacetError::InvalidFacet(_, _) })
    ));
    assert!(matches!(
        compile("decimal", &[("fractionDigits", "70000")]),
        Err(XsdDatatypeError::Facet { type_label: "decimal", facet: FacetError::InvalidInt(_, _) })
    ));
    match compile("QName", &[("length", "1")]) {
        Err(XsdDatatypeError::Facet { type_label, facet: FacetError::InvalidFacet(span, text) }) => {
            assert_eq!(type_label, "QName");
            assert_eq!(span, Span::new(0, 0));
            assert_eq!(text, "QName data type does not support facets");
        }
        other => panic!("{:?}", other.err()),
    }
    assert!(matches!(
        compile("ENTITIES", &[("pattern", "a")]),
        Err(XsdDatatypeError::Facet { type_label: "ENTITY", .. })
    ));
}

#[test]
fn facet_values_that_are_no_numbers_are_refused() {
    match compile("string", &[("length", "x")]) {
        Err(XsdDatatypeError::Facet { facet: FacetError::InvalidInt(span, text), .. }) => {
            assert_eq!(span, Span::new(3, 9));
            assert_eq!(text, "x");
        }
        other => panic!("{:?}", other.err()),
    }
    assert!(matches!(
        compile("string", &[("length", "-1")]),
        Err(XsdDatatypeError::Facet { facet: FacetError::InvalidInt(_, _), .. })
    ));
    assert!(matches!(
        compile("byte", &[("minInclusive", "128")]),
        Err(XsdDatatypeError::Facet { type_label: "byte", facet: FacetError::InvalidInt(_, _) })
    ));
    assert!(matches!(
        compile("integer", &[("maxInclusive", "1.5")]),
        Err(XsdDatatypeError::Facet { facet: FacetError::InvalidInt(_, _), .. })
    ));
    assert!(matches!(
        compile("positiveInteger", &[("maxInclusive", "-5")]),
        Err(XsdDatatypeError::Facet { facet: FacetError::InvalidInt(_, _), .. })
    ));
    assert!(matches!(
        compile("decimal", &[("maxInclusive", "abc")]),
        Err(XsdDatatypeError::Facet { facet: FacetError::InvalidInt(_, _), .. })
    ));
}

#[test]
fn patterns_that_do_not_compile_are_refused() {
    match compile("string", &[("pattern", "(unclosed")]) {
        Err(XsdDatatypeError::Facet { type_label, facet: FacetError::InvalidPattern(span, why) }) => {
            assert_eq!(type_label, "string");
            assert_eq!(span, Span::new(3, 9));
            assert!(!why.is_empty());
        }
        other => panic!("{:?}", other.err()),
    }
}

#[test]
fn conflicting_facets_are_refused() {
    let conflict = |name: &str, params: &[(&str, &str)]| match compile(name, params) {
        Err(XsdDatatypeError::Facet { facet: FacetError::ConflictingFacet(why), .. }) => why,
        other => panic!("{name} {params:?}: {:?}", other.err()),
    };
    assert_eq!(conflict("string", &[("minLength", "3"), ("maxLength", "2")]), "minLength greater than maxLength");
    assert_eq!(conflict("string", &[("maxLength", "2"), ("minLength", "3")]), "minLength greater than maxLength");
    assert_eq!(conflict("string", &[("minLength", "3"), ("minLength", "4")]), "minLength");
    assert_eq!(conflict("string", &[("maxLength", "3"), ("maxLength", "4")]), "maxLength");
    assert_eq!(conflict("string", &[("minLength", "3"), ("length", "4")]), "length");
    assert_eq!(conflict("string", &[("length", "3"), ("minLength", "4")]), "length");
    assert_eq!(conflict("string", &[("length", "3"), ("length", "3")]), "length");
    assert_eq!(
        conflict("string", &[("minLength", "1"), ("maxLength", "4"), ("maxLength", "5")]),
        "maxLength"
    );
    assert_eq!(
        conflict("int", &[("maxInclusive", "5"), ("minInclusive", "6")]),
        "minInclusive conflicts with maxInclusive"
    );
    assert_eq!(
        conflict("int", &[("minInclusive", "6"), ("maxInclusive", "5")]),
        "minInclusive conflicts with maxInclusive"
    );
    assert_eq!(
        conflict("int", &[("maxExclusive", "5"), ("minInclusive", "5")]),
        "minInclusive conflicts with maxExclusive"
    );
    assert_eq!(
        conflict("int", &[("minExclusive", "5"), ("maxInclusive", "5")]),
        "minInclusive conflicts with maxExclusive"
    );
    assert_eq!(
        conflict("int", &[("minExclusive", "1"), ("minInclusive", "1")]),
        "minInclusive conflicts with minExclusive"
    );
    assert_eq!(
        conflict("int", &[("minInclusive", "1"), ("minExclusive", "1")]),
        "minExclusive conflicts with minInclusive"
    );
    assert_eq!(
        conflict("int", &[("maxExclusive", "1"), ("maxInclusive", "1")]),
        "maxInclusive conflicts with maxExclusive"
    );
    assert_eq!(
        conflict("int", &[("maxInclusive", "1"), ("maxExclusive", "1")]),
        "maxExclusive conflicts with maxInclusive"
    );
    assert_eq!(conflict("int", &[("minInclusive", "1"), ("minInclusive", "1")]), "minInclusive");
    assert_eq!(conflict("int", &[("maxExclusive", "1"), ("maxExclusive", "2")]), "maxExclusive");
    assert_eq!(
        conflict("decimal", &[("minInclusive", "1.5"), ("maxInclusive", "1.25")]),
        "minInclusive conflicts with maxInclusive"
    );
    assert_eq!(
        conflict("integer", &[("maxInclusive", "99999999999999999999"), ("minInclusive", "100000000000000000000")]),
        "minInclusive conflicts with maxInclusive"
    );
    // equal bounds leave one value
    accepts("int", &[("minInclusive", "5"), ("maxInclusive", "5")], &["5"], &["4", "6"]);
}

#[test]
fn the_last_pattern_counts() {
    accepts("string", &[("pattern", "a"), ("pattern", "b")], &["b"], &["a"]);
}

#[test]
fn string_facets_tell_their_bounds() {
    let facets = |params: &[(&str, &str)]| match ty("string", params) {
        XsdDatatypes::String(f) => f,
        _ => panic!("no string"),
    };
    let f = facets(&[]);
    assert!(!f.bounded());
    assert_eq!((f.min_len(), f.max_len()), (None, None));
    assert!(f.regex().is_none());
    let f = facets(&[("minLength", "2")]);
    assert!(f.bounded());
    assert_eq!((f.min_len(), f.max_len()), (Some(2), None));
    let f = facets(&[("maxLength", "5")]);
    assert_eq!((f.min_len(), f.max_len()), (None, Some(5)));
    let f = facets(&[("minLength", "2"), ("maxLength", "5")]);
    assert_eq!((f.min_len(), f.max_len()), (Some(2), Some(5)));
    let f = facets(&[("length", "4"), ("pattern", "x+")]);
    assert_eq!((f.min_len(), f.max_len()), (Some(4), Some(4)));
    let re = f.regex().expect("a pattern");
    assert_eq!(re.as_str(), "^(?:x+)$");
    assert!(re.is_match("xxxx") && !re.is_match("axxxx"));
    assert!(f.is_valid("xxxx") && !f.is_valid("xxx") && !f.is_valid("xxxy"));
}

fn bindings(pairs: &[(&str, &str)]) -> Vec<(String, String)> {
    pairs.iter().map(|(p, u)| (p.to_string(), u.to_string())).collect()
}

fn bound(pairs: &[(&str, &str)]) -> Bindings {
    Bindings { pairs: bindings(pairs) }
}

#[test]
fn values() {
    let none = bound(&[]);
    let c = Compiler;
    let at = Span::new(4, 8);
    let v = c.compile_value(&at, "string", " a  b ", &[]).unwrap();
    assert!(matches!(&v, XsdDatatypeValues::String(s) if s == " a  b "));
    assert!(v.is_valid(" a  b ") && !v.is_valid("a b"));
    assert!(v.is_valid_with_ns(" a  b ", &none) && !v.is_valid_with_ns("a b", &none));
    let v = c.compile_value(&at, "token", " a  b ", &[]).unwrap();
    assert!(matches!(&v, XsdDatatypeValues::Token(s) if s == "a b"));
    assert!(v.is_valid("a b") && v.is_valid("\ta \n b ") && !v.is_valid("ab"));
    assert!(v.is_valid_with_ns(" a b", &none));
    match c.compile_value(&at, "int", "1", &[]) {
        Err(XsdDatatypeError::UnsupportedDatatype { span, name }) => {
            assert_eq!((span, name.as_str()), (at, "int"));
        }
        other => panic!("{other:?}"),
    }
}

#[test]
fn qname_values() {
    let c = Compiler;
    let at = Span::new(4, 8);
    let ns = bindings(&[("p", "urn:x"), ("", "urn:default"), ("p", "urn:late")]);
    let v = c.compile_value(&at, "QName", "p:foo", &ns).unwrap();
    assert!(matches!(&v, XsdDatatypeValues::QName(QNameVal(u, l)) if u == "urn:x" && l == "foo"));
    // a QName cannot be told without the bindings of the document
    assert!(!v.is_valid("p:foo"));
    assert!(v.is_valid_with_ns("p:foo", &bound(&[("p", "urn:x")])));
    assert!(v.is_valid_with_ns("q:foo", &bound(&[("q", "urn:x")])));
    assert!(v.is_valid_with_ns("foo", &bound(&[("", "urn:x")])));
    assert!(!v.is_valid_with_ns("p:foo", &bound(&[("p", "urn:y")])));
    assert!(!v.is_valid_with_ns("p:bar", &bound(&[("p", "urn:x")])));
    assert!(!v.is_valid_with_ns("p:foo", &bound(&[])));
    assert!(!v.is_valid_with_ns("foo", &bound(&[])));
    assert!(!v.is_valid_with_ns(":foo", &bound(&[("", "urn:x")])));
    let v = c.compile_value(&at, "QName", "foo", &ns).unwrap();
    assert!(matches!(&v, XsdDatatypeValues::QName(QNameVal(u, l)) if u == "urn:default" && l == "foo"));
    let v = c.compile_value(&at, "QName", "foo", &[]).unwrap();
    assert!(matches!(&v, XsdDatatypeValues::QName(QNameVal(u, l)) if u.is_empty() && l == "foo"));
    assert!(v.is_valid_with_ns("foo", &bound(&[])));
    assert!(!v.is_valid_with_ns("foo", &bound(&[("", "urn:x")])));
    for bad in ["q:foo", "p:", ":foo", "p:1", "a b", ""] {
        match c.compile_value(&at, "QName", bad, &ns) {
            Err(XsdDatatypeError::InvalidValueOfType { span, type_label }) => {
                assert_eq!((span, type_label), (at, "QName"));
            }
            other => panic!("{bad}: {other:?}"),
        }
    }
    assert!(QNameVal::from_val_with_ns_slice("p:foo", &ns).is_ok());
    assert!(QNameVal::from_val_with_ns_slice("x:foo", &ns).is_err());
    let context = Bindings { pairs: ns.clone() };
    assert_eq!(context.resolve("p").as_deref(), Some("urn:x"));
    assert_eq!(context.resolve("").as_deref(), Some("urn:default"));
    assert_eq!(context.resolve("zz"), None);
    let q = QNameVal::from_val_with_dyn_ns("p:foo", &context).unwrap();
    assert_eq!((q.0.as_str(), q.1.as_str()), ("urn:x", "foo"));
    assert!(q.same(&QNameVal("urn:x".to_string(), "foo".to_string())));
    assert!(!q.same(&QNameVal("urn:x".to_string(), "bar".to_string())));
}

#[test]
fn types_and_values_by_name() {
    let c = Compiler;
    let name = DatatypeName::CName { prefix: "xsd".to_string(), span: Span::new(1, 2), name: "int".to_string() };
    let t = c.datatype_name(&name, &[param("maxInclusive", "3")]).unwrap();
    assert!(t.is_valid("3") && !t.is_valid("4"));
    let name = DatatypeName::CName { prefix: "xsd".to_string(), span: Span::new(1, 2), name: "token".to_string() };
    let v = c.datatype_value(&name, " x ", &[]).unwrap();
    assert!(v.is_valid("x"));
    let name = DatatypeName::CName { prefix: "xsd".to_string(), span: Span::new(1, 2), name: "what".to_string() };
    assert!(matches!(
        c.datatype_name(&name, &[]),
        Err(XsdDatatypeError::UnsupportedDatatype { span: Span { start: 1, end: 2 }, .. })
    ));
}

#[test]
fn bounds_agree_with_reading_and_comparing() {
    let t = ty("int", &[("minInclusive", "-5"), ("maxInclusive", "5")]);
    let mut texts: Vec<String> = (-12..=12).map(|n: i32| n.to_string()).collect();
    for odd in ["", "+3", "+6", " 3", "3 ", "3.0", "007", "-0", "abc", "2147483648", "-2147483649"] {
        texts.push(odd.to_string());
    }
    for text in &texts {
        let expected = match text.parse::<i32>() {
            Ok(v) => -5 <= v && v <= 5,
            Err(_) => false,
        };
        assert_eq!(t.is_valid(text), expected, "{text:?}");
    }
    let t = ty("unsignedByte", &[("minInclusive", "200"), ("maxInclusive", "255")]);
    for n in 0..=300u32 {
        assert_eq!(t.is_valid(&n.to_string()), (200..=255).contains(&n), "{n}");
    }
    assert!(compile("int", &[("minInclusive", "6"), ("maxInclusive", "5")]).is_err());
    assert!(compile("int", &[("minInclusive", "5"), ("maxInclusive", "5")]).is_ok());
    assert!(compile("int", &[("minInclusive", "x"), ("maxInclusive", "5")]).is_err());
}

#[test]
fn exclusive_bounds_agree_with_reading_and_comparing() {
    let t = ty("short", &[("minExclusive", "-3"), ("maxExclusive", "4")]);
    for n in -40..=40i32 {
        assert_eq!(t.is_valid(&n.to_string()), -3 < n && n < 4, "{n}");
    }
    let t = ty("integer", &[("maxExclusive", "100000000000000000000"), ("minInclusive", "-1")]);
    for (text, expected) in [
        ("-2", false),
        ("-1", true),
        ("0", true),
        ("99999999999999999999", true),
        ("100000000000000000000", false),
        ("100000000000000000001", false),
        ("1.5", false),
        ("", false),
    ] {
        assert_eq!(t.is_valid(text), expected, "{text:?}");
    }
    let t = ty("decimal", &[("minExclusive", "0.5"), ("maxInclusive", "1.50")]);
    for (text, expected) in [("0.5", false), ("0.50001", true), ("1.5", true), ("1.500", true), ("1.51", false)] {
        assert_eq!(t.is_valid(text), expected, "{text:?}");
    }
}

#[test]
fn facets_that_leave_no_value_are_refused_in_either_order() {
    for (a, b) in [
        (("minExclusive", "5"), ("maxInclusive", "5")),
        (("minInclusive", "5"), ("maxExclusive", "5")),
        (("minExclusive", "5"), ("maxExclusive", "5")),
        (("minInclusive", "6"), ("maxInclusive", "5")),
    ] {
        for name in ["int", "integer", "decimal", "double", "unsignedByte"] {
            assert!(
                matches!(
                    compile(name, &[a, b]),
                    Err(XsdDatatypeError::Facet { facet: FacetError::ConflictingFacet(_), .. })
                ),
                "{name} {a:?} {b:?}"
            );
            assert!(
                matches!(
                    compile(name, &[b, a]),
                    Err(XsdDatatypeError::Facet { facet: FacetError::ConflictingFacet(_), .. })
                ),
                "{name} {b:?} {a:?}"
            );
        }
    }
    accepts("int", &[("minInclusive", "5"), ("maxInclusive", "5")], &["5"], &["4", "6"]);
    accepts("int", &[("maxInclusive", "5"), ("minInclusive", "5")], &["5"], &["4", "6"]);
    accepts("int", &[("maxExclusive", "6"), ("minExclusive", "4")], &["5"], &["4", "6"]);
}
