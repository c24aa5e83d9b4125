use relaxng_validator::compiler::Compiler;
use relaxng_validator::datatype::{
    BuiltinDatatype, BuiltinDatatypeValue, DatatypeValues, Datatypes,
};
use relaxng_validator::pool::{LimitError, Pat};
use relaxng_validator::report::{Level, Place};
use relaxng_validator::model::{DefineRule, Grammar, NameClass, Pattern};
use relaxng_validator::span::Span;
use relaxng_validator::token::ValidatorError;
use relaxng_validator::validator::Validator;

fn named(name: &str) -> NameClass {
    NameClass::Named { namespace_uri: String::new(), name: name.to_string() }
}

fn element(name: &str, content: Pattern) -> Pattern {
    Pattern::Element(named(name), Box::new(content))
}

fn attribute(name: &str, content: Pattern) -> Pattern {
    Pattern::Attribute(named(name), Box::new(content))
}

fn reference(name: &str, index: usize) -> Pattern {
    Pattern::Ref(Span::new(0, 0), name.to_string(), index)
}

fn token_value(text: &str) -> Pattern {
    Pattern::DatatypeValue {
        datatype: DatatypeValues::Relax(BuiltinDatatypeValue::TokenValue(text.to_string())),
    }
}

fn rule(name: &str, pattern: Pattern) -> Option<DefineRule> {
    Some(DefineRule { name: name.to_string(), pattern })
}

fn start(pattern: Pattern) -> DefineRule {
    DefineRule { name: "start".to_string(), pattern }
}

/// Runs the validator over the whole document and gives the first error.
fn run(grammar: &Grammar, start: &DefineRule, doc: &str) -> Result<bool, ValidatorError> {
    let reader = xmlparser::Tokenizer::from(doc);
    let mut v = Validator::new(grammar, start, reader).expect("the schema fits the pool");
    while let Some(i) = v.validate_next() {
        i?;
    }
    Ok(v.is_complete())
}

fn check_simple(schema: Pattern, doc: &str) -> Result<(), String> {
    let grammar = Grammar { rules: vec![] };
    match run(&grammar, &start(schema), doc) {
        Ok(_) => Ok(()),
        Err(err) => Err(format!("{err:?}")),
    }
}

fn valid(grammar: &Grammar, start: &DefineRule, doc: &str) {
    if let Err(err) = run(grammar, start, doc) {
        panic!("{err:?}");
    }
}

fn invalid(grammar: &Grammar, start: &DefineRule, doc: &str) {
    if run(grammar, start, doc).is_ok() {
        panic!("Invalid input was accepted by the validator")
    }
}

#[test]
fn recur() {
    // start = b  b = element a { b? }
    let grammar = Grammar {
        rules: vec![rule("b", element("a", Pattern::Optional(Box::new(reference("b", 0)))))],
    };
    let res = run(&grammar, &start(reference("b", 0)), "<?xml version=\"1.0\"?><a><a></a></a>");
    assert!(res.is_ok())
}

#[test]
fn attr() {
    // start = element a { attribute b { text } }
    let res = check_simple(
        element("a", attribute("b", Pattern::Text)),
        "<?xml version=\"1.0\"?><a b=\"\"/>",
    );
    assert!(matches!(res, Ok(())));
}

#[test]
fn attr_group_incomplete() {
    // schema requires both attributes, but the instance document only has the first one
    // start = element e { attribute a { text }, attribute b { text } }
    let res = check_simple(
        element(
            "e",
            Pattern::Group(vec![attribute("a", Pattern::Text), attribute("b", Pattern::Text)]),
        ),
        "<?xml version=\"1.0\"?><e a=\"\"/>",
    );
    assert!(matches!(res, Err(_)));
}

#[test]
fn attr_choice() {
    // start = element a { attribute a { text } | attribute b { text } }
    let res = check_simple(
        element(
            "a",
            Pattern::Choice(vec![attribute("a", Pattern::Text), attribute("b", Pattern::Text)]),
        ),
        "<?xml version=\"1.0\"?><a a=\"\"/>",
    );
    assert!(matches!(res, Ok(())));
}

#[test]
fn attr_unexpected() {
    // start = element a { attribute a { text } }
    let res = check_simple(
        element("a", attribute("a", Pattern::Text)),
        "<?xml version=\"1.0\"?><a a=\"\" b=\"\"/>",
    );
    assert!(matches!(res, Err(_)));
}

#[test]
fn elem_text_empty() {
    // if the only child of an element is whitespace, this should still match 'empty'
    // start = element e { empty }
    let res = check_simple(element("e", Pattern::Empty), "<?xml version=\"1.0\"?><e> </e>");
    assert!(matches!(res, Ok(())));
}

#[test]
fn elem_only_children_whitespace() {
    // start = element e1 { element e2 { empty } }
    let res = check_simple(
        element("e1", element("e2", Pattern::Empty)),
        "<?xml version=\"1.0\"?><e1> <e2/> </e1>",
    );
    assert!(matches!(res, Ok(())));
}

#[test]
fn list() {
    // start = element e1 { list { token 'one', token 'two' } }
    let res = check_simple(
        element(
            "e1",
            Pattern::List(Box::new(Pattern::Group(vec![token_value("one"), token_value("two")]))),
        ),
        "<?xml version=\"1.0\"?><e1>one two</e1>",
    );
    if let Err(e) = res {
        panic!("{e:?}");
    }
}

#[test]
fn list_one_or_more() {
    // start = element e1 { list { 'x'+ } }
    let res = check_simple(
        element("e1", Pattern::List(Box::new(Pattern::OneOrMore(Box::new(token_value("x")))))),
        "<?xml version=\"1.0\"?><e1>x</e1>",
    );
    if let Err(e) = res {
        panic!("{e:?}");
    }
}

#[test]
fn list_tokens_are_taken_one_by_one() {
    // list { 'x'+ }: a token that is no 'x' is refused wherever it stands
    let schema = || {
        element("e1", Pattern::List(Box::new(Pattern::OneOrMore(Box::new(token_value("x"))))))
    };
    assert!(check_simple(schema(), "<e1>x x x</e1>").is_ok());
    assert!(check_simple(schema(), "<e1>x y</e1>").is_err());
    assert!(check_simple(schema(), "<e1>y x</e1>").is_err());
}

#[test]
fn element_whitespace_one_or_more() {
    // the whitespace prior to the initial <b/> should not make the doc invalid
    // start = element a { element b { empty }+ }
    let grammar = Grammar { rules: vec![] };
    valid(
        &grammar,
        &start(element("a", Pattern::OneOrMore(Box::new(element("b", Pattern::Empty))))),
        "<a> <b/><b/><b/></a>",
    );
}

#[test]
fn text_element_group() {
    // start = element a { text, element b { empty } }
    let grammar = Grammar { rules: vec![] };
    valid(
        &grammar,
        &start(element("a", Pattern::Group(vec![Pattern::Text, element("b", Pattern::Empty)]))),
        "<a>foo <b/></a>",
    );
}

#[test]
fn top_level_grammar() {
    // grammar { start = element a { empty } }
    let grammar = Grammar { rules: vec![] };
    valid(&grammar, &start(element("a", Pattern::Empty)), "<a/>");
}

#[test]
fn empty_element_matches_token() {
    // element e { token }
    let grammar = Grammar { rules: vec![] };
    let schema = start(element(
        "e",
        Pattern::DatatypeName { datatype: Datatypes::Relax(BuiltinDatatype::Token), except: None },
    ));
    valid(&grammar, &schema, "<e></e>");
    valid(&grammar, &schema, "<e/>");
}

/// The grammar a(n) = a(n-1) | b(n-1)+, b(n) = b(n-1) | a(n-1)+, over
/// element a { text } and element b { text }, up to n = 8, and
/// start = element root { a8 | b8 }.
fn alternating_layers() -> (Grammar, DefineRule) {
    let mut rules = vec![rule("a", element("a", Pattern::Text)), rule("b", element("b", Pattern::Text))];
    for n in 1..=8usize {
        let (pa, pb) = (2 * (n - 1), 2 * (n - 1) + 1);
        rules.push(rule(
            "a",
            Pattern::Choice(vec![
                reference("a", pa),
                Pattern::OneOrMore(Box::new(reference("b", pb))),
            ]),
        ));
        rules.push(rule(
            "b",
            Pattern::Choice(vec![
                reference("b", pb),
                Pattern::OneOrMore(Box::new(reference("a", pa))),
            ]),
        ));
    }
    let schema = start(element(
        "root",
        Pattern::Choice(vec![reference("a8", 16), reference("b8", 17)]),
    ));
    (Grammar { rules }, schema)
}

#[test]
fn blowup() {
    // https://relaxng.org/jclark/derivative.html#Avoiding_exponential_blowup
    let (grammar, schema) = alternating_layers();
    valid(&grammar, &schema, "<root><b/><b/><b/></root>");
    invalid(&grammar, &schema, "<root><b/><c/></root>");
}

#[test]
fn the_pool_stays_small_over_a_long_document() {
    let (grammar, schema) = alternating_layers();
    let mut doc = String::from("<root>");
    for i in 0..600 {
        doc.push_str(if i % 3 == 0 { "<b>text</b>" } else { "<b/>" });
    }
    doc.push_str("</root>");
    let mut v = Validator::new(&grammar, &schema, xmlparser::Tokenizer::from(doc.as_str()))
        .expect("the schema fits the pool");
    let mut sizes = vec![v.schema().len()];
    while let Some(step) = v.validate_next() {
        step.expect("the document is valid");
        sizes.push(v.schema().len());
    }
    assert!(v.is_complete());
    let last = v.schema().len();
    assert!(last < 1_000_000, "{last} patterns");
    // the pool only grows, and it stops growing long before the document ends
    assert!(sizes.windows(2).all(|w| w[0] <= w[1]));
    assert_eq!(sizes[sizes.len() / 2], last);
}

fn xsd(name: &str) -> Pattern {
    let datatype = Compiler.compile(&Span::new(0, 0), name, &[]).expect("a built-in type");
    Pattern::DatatypeName { datatype: Datatypes::Xsd(datatype), except: None }
}

fn qname_value(value: &str, ns: &[(String, String)]) -> Pattern {
    let datatype = Compiler
        .compile_value(&Span::new(0, 0), "QName", value, ns)
        .expect("a name with a bound prefix");
    Pattern::DatatypeValue { datatype: DatatypeValues::Xsd(datatype) }
}

#[test]
fn datavalue_in_parts() {
    // the ampersand in the input document means that the text is delivered to the validator
    // in pieces,
    //  - the initial "foo "
    //  - the "&" of the decoded character reference
    //  - the trailing " bar"
    // this should still be a valid value of the string datatype
    // start = element a { xsd:string }
    let grammar = Grammar { rules: vec![] };
    valid(&grammar, &start(element("a", xsd("string"))), "<a>foo &amp; bar</a>");
}

#[test]
fn attribute_any_other_namespace() {
    // Per RELAX NG section 7.3, attribute with infinite name class (anyName/nsName)
    // must be inside oneOrMore
    // namespace local = ""  default namespace foo = "urn:foo"
    // element MPD { attribute mediaPresentationDuration { xsd:duration }?,
    //               attribute * - (foo:* | local:*)  { text }* }
    let others = NameClass::AnyName {
        except: Some(Box::new(NameClass::Alt {
            a: Box::new(NameClass::NsName { namespace_uri: "urn:foo".to_string(), except: None }),
            b: Box::new(NameClass::NsName { namespace_uri: String::new(), except: None }),
        })),
    };
    let schema = start(Pattern::Element(
        NameClass::Named { namespace_uri: "urn:foo".to_string(), name: "MPD".to_string() },
        Box::new(Pattern::Group(vec![
            Pattern::Optional(Box::new(attribute("mediaPresentationDuration", xsd("duration")))),
            Pattern::ZeroOrMore(Box::new(Pattern::Attribute(others, Box::new(Pattern::Text)))),
        ])),
    ));
    let grammar = Grammar { rules: vec![] };
    assert!(relaxng_validator::check_restrictions(&grammar, &schema, Span::new(0, 0)).is_ok());
    invalid(
        &grammar,
        &schema,
        "<?xml verion=\"1.0\"?>\
            <MPD xmlns=\"urn:foo\" mediaPresentationDuration=\"XPT0H11M58.998S\"></MPD>",
    );
    invalid(
        &grammar,
        &schema,
        "<MPD xmlns=\"urn:foo\" mediaPresentationDuration=\"XPT0H11M58.998S\"></MPD>",
    );
    valid(&grammar, &schema, "<MPD xmlns=\"urn:foo\" mediaPresentationDuration=\"PT0H11M58.998S\"></MPD>");
    valid(
        &grammar,
        &schema,
        "<MPD xmlns=\"urn:foo\" xmlns:o=\"urn:other\" o:a=\"1\" o:b=\"2\"></MPD>",
    );
    invalid(&grammar, &schema, "<MPD xmlns=\"urn:foo\" plain=\"1\"></MPD>");
}

#[test]
fn qname_value_is_resolved_in_the_document() {
    // element e { xsd:QName "p:foo" } with xmlns:p="urn:x"
    let ns = [("p".to_string(), "urn:x".to_string())];
    let grammar = Grammar { rules: vec![] };
    let schema = start(element("e", qname_value("p:foo", &ns)));
    valid(&grammar, &schema, "<e xmlns:p=\"urn:x\">p:foo</e>");
    valid(&grammar, &schema, "<e xmlns:q=\"urn:x\">q:foo</e>");
    invalid(&grammar, &schema, "<e xmlns:p=\"urn:y\">p:foo</e>");
    invalid(&grammar, &schema, "<e xmlns:p=\"urn:x\">p:bar</e>");
    invalid(&grammar, &schema, "<e>p:foo</e>");
}

#[test]
fn required_attribute_missing_is_told_at_the_end_of_the_start_tag() {
    let grammar = Grammar { rules: vec![] };
    let schema = start(element(
        "e",
        Pattern::Group(vec![attribute("a", Pattern::Text), attribute("b", Pattern::Text)]),
    ));
    match run(&grammar, &schema, "<e a=\"\"/>") {
        Err(ValidatorError::NotAllowed(relaxng_validator::token::XmlToken::ElementEnd {
            ..
        })) => {}
        other => panic!("{other:?}"),
    }
    assert_eq!(run(&grammar, &schema, "<e b=\"\" a=\"\"/>").ok(), Some(true));
}

#[test]
fn processing_instructions_do_not_split_text() {
    // "a<?x?>b" is the single text "ab"
    let grammar = Grammar { rules: vec![] };
    let schema = start(element("e", token_value("ab")));
    valid(&grammar, &schema, "<e>a<?x?>b</e>");
    valid(&grammar, &schema, "<e>a<!-- note -->b</e>");
    valid(&grammar, &schema, "<e>a<![CDATA[b]]></e>");
    invalid(&grammar, &schema, "<e>a b</e>");
}

#[test]
fn entities_are_resolved() {
    let grammar = Grammar { rules: vec![] };
    let schema = start(element("e", token_value("<a&b> 'c' \"d\" A B")));
    valid(&grammar, &schema, "<e>&lt;a&amp;b&gt; &apos;c&apos; &quot;d&quot; &#65; &#x42;</e>");
    let declared = start(element("e", token_value("hello world")));
    valid(
        &grammar,
        &declared,
        "<!DOCTYPE e [<!ENTITY who \"world\">]><e>hello &who;</e>",
    );
    match run(&grammar, &declared, "<e>hello &who;</e>") {
        Err(ValidatorError::UndefinedEntity { name, span }) => {
            assert_eq!(name, "who");
            assert_eq!((span.start, span.end), (10, 13));
        }
        other => panic!("{other:?}"),
    }
    match run(&grammar, &declared, "<e>hello &who</e>") {
        Err(ValidatorError::InvalidOrUnclosedEntity { span }) => {
            assert_eq!((span.start, span.end), (9, 10));
        }
        other => panic!("{other:?}"),
    }
    match run(&grammar, &declared, "<!DOCTYPE e [<!ENTITY who SYSTEM \"who.txt\">]><e>hello</e>") {
        Err(ValidatorError::NotAllowed(_)) => {}
        other => panic!("{other:?}"),
    }
}

#[test]
fn prefixes_are_resolved() {
    let grammar = Grammar { rules: vec![] };
    let named = |ns: &str, name: &str, content: Pattern| {
        Pattern::Element(
            NameClass::Named { namespace_uri: ns.to_string(), name: name.to_string() },
            Box::new(content),
        )
    };
    let schema = start(named(
        "urn:a",
        "e",
        Pattern::Group(vec![
            Pattern::Optional(Box::new(Pattern::Attribute(
                NameClass::Named {
                    namespace_uri: "http://www.w3.org/XML/1998/namespace".to_string(),
                    name: "lang".to_string(),
                },
                Box::new(Pattern::Text),
            ))),
            Pattern::Optional(Box::new(named("", "plain", Pattern::Empty))),
            Pattern::Optional(Box::new(named("urn:a", "inner", Pattern::Empty))),
        ]),
    ));
    valid(&grammar, &schema, "<e xmlns=\"urn:a\"/>");
    valid(&grammar, &schema, "<p:e xmlns:p=\"urn:a\" xml:lang=\"en\"/>");
    valid(&grammar, &schema, "<e xmlns=\"urn:a\"><inner/></e>");
    valid(&grammar, &schema, "<e xmlns=\"urn:a\"><plain xmlns=\"\"/></e>");
    invalid(&grammar, &schema, "<e xmlns=\"urn:a\"><plain/></e>");
    invalid(&grammar, &schema, "<e xmlns=\"urn:b\"/>");
    invalid(&grammar, &schema, "<e/>");
    match run(&grammar, &schema, "<p:e/>") {
        Err(ValidatorError::UndefinedNamespacePrefix { prefix }) => {
            assert_eq!(prefix.text, "p");
            assert_eq!(prefix.start, 1);
        }
        other => panic!("{other:?}"),
    }
    // a declaration holds for the element that makes it and what is inside
    invalid(&grammar, &schema, "<p:e xmlns:p=\"urn:a\"><p:inner/><q:inner xmlns:q=\"urn:a\"/></p:e>");
    match run(&grammar, &schema, "<e xmlns=\"urn:a\"><p:inner xmlns:p=\"urn:a\"/><p:inner/></e>") {
        Err(ValidatorError::UndefinedNamespacePrefix { .. }) | Err(ValidatorError::NotAllowed(_)) => {}
        other => panic!("{other:?}"),
    }
}

#[test]
fn documents_that_are_not_well_formed_are_refused() {
    let grammar = Grammar { rules: vec![] };
    let schema = start(element("e", Pattern::Empty));
    match run(&grammar, &schema, "<e><") {
        Err(ValidatorError::Xml { message, row, .. }) => {
            assert!(!message.is_empty());
            assert_eq!(row, 1);
        }
        other => panic!("{other:?}"),
    }
}

#[test]
fn a_document_that_ends_early_is_not_complete() {
    let grammar = Grammar { rules: vec![] };
    let schema = start(element("e", Pattern::Empty));
    assert_eq!(run(&grammar, &schema, "<e/>").ok(), Some(true));
    assert_eq!(run(&grammar, &schema, "<!-- nothing -->").ok(), Some(false));
}

#[test]
fn a_missing_definition_is_told() {
    let grammar = Grammar { rules: vec![None] };
    let schema = start(element("e", reference("gone", 0)));
    let v = Validator::new(&grammar, &schema, xmlparser::Tokenizer::from("<e/>"));
    assert!(matches!(v, Err(LimitError::Unresolved)));
    let outside = start(element("e", reference("nowhere", 7)));
    let v = Validator::new(&grammar, &outside, xmlparser::Tokenizer::from("<e/>"));
    assert!(matches!(v, Err(LimitError::Unresolved)));
}

#[test]
fn diagnostics_name_what_is_expected() {
    let grammar = Grammar { rules: vec![] };
    let schema = start(element(
        "root",
        Pattern::Choice(vec![
            element("a", Pattern::Empty),
            element("b", Pattern::Empty),
            element("c", Pattern::Empty),
            element("d", Pattern::Empty),
            element("e", Pattern::Empty),
            element("f", Pattern::Empty),
        ]),
    ));
    let doc = "<root><x/></root>";
    let mut v = Validator::new(&grammar, &schema, xmlparser::Tokenizer::from(doc)).unwrap();
    let err = loop {
        match v.validate_next() {
            Some(Ok(())) => {}
            Some(Err(e)) => break e,
            None => panic!("the document was accepted"),
        }
    };
    let d = v.diagnostic(&err);
    assert_eq!(d.len(), 2);
    assert_eq!(d[0].level, Level::Error);
    assert_eq!(d[0].message, "element-start not expected here");
    assert_eq!(d[0].spans.len(), 1);
    assert_eq!(d[0].spans[0].label.as_deref(), Some("Not allowed"));
    match d[0].spans[0].place {
        Place::Offsets(span) => assert_eq!(&doc[span.start..span.end], "x"),
        other => panic!("{other:?}"),
    }
    assert_eq!(d[1].level, Level::Help);
    assert_eq!(d[1].message, "Expected Element a b c d .. or one of 2 more");
    assert!(d[1].spans.is_empty());

    let heads = v.schema().heads(v.current());
    assert_eq!(heads.len(), 6);
    assert!(heads.iter().all(|p| matches!(p, Pat::Element(_, _))));
}

#[test]
fn diagnostics_of_the_other_errors() {
    let grammar = Grammar { rules: vec![] };
    let schema = start(element("e", Pattern::Text));
    let first_error = |doc: &str| {
        let mut v = Validator::new(&grammar, &schema, xmlparser::Tokenizer::from(doc)).unwrap();
        loop {
            match v.validate_next() {
                Some(Ok(())) => {}
                Some(Err(e)) => return v.diagnostic(&e),
                None => panic!("the document was accepted"),
            }
        }
    };
    let d = first_error("<p:e/>");
    assert_eq!(d.len(), 1);
    assert_eq!(d[0].message, "The prefix \"p\" is not defined");
    assert_eq!(
        d[0].spans[0].label.as_deref(),
        Some("Add an xmlns:p=\"..\" attribute to define this prefix")
    );
    assert_eq!(d[0].spans[0].place, Place::Offsets(Span::new(1, 2)));
    let d = first_error("<e>&nope;</e>");
    assert_eq!(d[0].message, "The entity &\"nope\"; is not defined");
    assert_eq!(d[0].spans[0].label.as_deref(), Some("undefined"));
    let d = first_error("<e>&#;</e>");
    assert_eq!(d[0].message, "Invalid or unclosed entity reference");
    assert_eq!(d[0].spans[0].label, None);
    let d = first_error("<e><");
    assert_eq!(d.len(), 1);
    assert!(matches!(d[0].spans[0].place, Place::Line(1)));
    let d = first_error("<e><x/></e>");
    assert_eq!(d[0].message, "element-start not expected here");
    assert_eq!(d[1].message, "Remove this");
}

#[test]
fn patterns_are_dumped_as_text() {
    let grammar = Grammar { rules: vec![] };
    let schema = start(element(
        "a",
        Pattern::Group(vec![attribute("b", Pattern::Text), Pattern::Optional(Box::new(element("c", Pattern::Empty)))]),
    ));
    let v = Validator::new(&grammar, &schema, xmlparser::Tokenizer::from("<a/>")).unwrap();
    let text = v.schema().dumpy(v.current());
    let lines: Vec<&str> = text.lines().collect();
    assert_eq!(lines[0], format!("Elem{}(a=", v.current().0));
    assert!(lines[1].starts_with("  Group"));
    assert!(lines[2].starts_with("    Att") && lines[2].ends_with("(b="));
    assert!(lines[3].starts_with("      Text"));
    assert_eq!(lines[4], "    )");
    assert!(lines[5].starts_with("    Choice"));
    assert!(lines.contains(&"      )"));
    assert_eq!(*lines.last().unwrap(), ")");
    // a pattern that was shown is not shown again
    let twice = start(element("a", Pattern::Group(vec![element("b", Pattern::Text), element("c", Pattern::Text)])));
    let v = Validator::new(&grammar, &twice, xmlparser::Tokenizer::from("<a/>")).unwrap();
    let text = v.schema().dumpy(v.current());
    assert_eq!(text.lines().filter(|l| l.trim_start().starts_with("Text")).count(), 2);
    assert_eq!(text.lines().filter(|l| l.ends_with('!')).count(), 1);
}

#[test]
fn events_are_taken_one_by_one_until_the_document_ends() {
    // start = element a { attribute b { text }, element c { text } }
    let grammar = Grammar { rules: vec![] };
    let schema = start(element(
        "a",
        Pattern::Group(vec![attribute("b", Pattern::Text), element("c", Pattern::Text)]),
    ));
    let doc = "<a b='1'><c>x</c></a>";
    let mut v = Validator::new(&grammar, &schema, xmlparser::Tokenizer::from(doc)).unwrap();
    // <a, b='1', >, <c, >, x, </c>, </a>
    for _ in 0..8 {
        assert!(!v.is_complete());
        assert!(matches!(v.validate_next(), Some(Ok(()))));
    }
    assert!(v.is_complete());
    assert!(v.validate_next().is_none());
    assert!(v.validate_next().is_none());
    assert!(v.is_complete());
}

#[test]
fn an_error_of_the_tokenizer_is_the_last_event() {
    let grammar = Grammar { rules: vec![] };
    let schema = start(element("a", Pattern::Text));
    let mut v = Validator::new(&grammar, &schema, xmlparser::Tokenizer::from("<a>x</a><")).unwrap();
    let before = v.current();
    let mut taken = 0;
    let error = loop {
        match v.validate_next() {
            Some(Ok(())) => taken += 1,
            Some(Err(e)) => break e,
            None => panic!("the document is not well formed"),
        }
    };
    // <a, >, x, </a>
    assert_eq!(taken, 4);
    assert!(matches!(error, ValidatorError::Xml { .. }));
    assert!(v.is_complete() && v.current() != before);
    assert!(v.validate_next().is_none());
}

#[test]
fn an_error_carries_the_event_that_was_refused() {
    let grammar = Grammar { rules: vec![] };
    // start = element e { attribute a { text }, attribute b { text } }
    let schema = start(element(
        "e",
        Pattern::Group(vec![attribute("a", Pattern::Text), attribute("b", Pattern::Text)]),
    ));
    // the end of the start tag, where the missing attribute is told
    let doc = "<e a=\"\"/>";
    match run(&grammar, &schema, doc) {
        Err(ValidatorError::NotAllowed(relaxng_validator::token::XmlToken::ElementEnd {
            end: relaxng_validator::token::ElementEnd::Empty,
            span,
        })) => assert_eq!(&doc[span.start..span.end], "/>"),
        other => panic!("{other:?}"),
    }
    // an attribute that the element does not have
    let doc = "<e a=\"1\" c=\"two\" b=\"3\"/>";
    match run(&grammar, &schema, doc) {
        Err(ValidatorError::NotAllowed(relaxng_validator::token::XmlToken::Attribute {
            local,
            value,
            span,
            ..
        })) => {
            assert_eq!((local.as_str(), value.as_str()), ("c", "two"));
            assert_eq!(&doc[span.start..span.end], "c=\"two\"");
            assert_eq!((local.start(), value.start()), (span.start, span.start));
        }
        other => panic!("{other:?}"),
    }
    // an element that is not expected
    let doc = "<e a=\"\" b=\"\"><f/></e>";
    match run(&grammar, &schema, doc) {
        Err(ValidatorError::NotAllowed(relaxng_validator::token::XmlToken::ElementStart {
            local,
            span,
            ..
        })) => {
            assert_eq!(local.as_str(), "f");
            assert_eq!(&doc[span.start..span.end], "f");
        }
        other => panic!("{other:?}"),
    }
    // a prefix that is not bound
    let doc = "<e a=\"\" pre:b=\"\"/>";
    match run(&grammar, &schema, doc) {
        Err(ValidatorError::UndefinedNamespacePrefix { prefix }) => {
            assert_eq!(prefix.as_str(), "pre");
            assert_eq!(&doc[prefix.start()..prefix.end()], "pre");
        }
        other => panic!("{other:?}"),
    }
    // an entity that is not defined
    let text = start(element("t", Pattern::Text));
    let doc = "<t>one &two; three</t>";
    match run(&grammar, &text, doc) {
        Err(ValidatorError::UndefinedEntity { name, span }) => {
            assert_eq!(name, "two");
            assert_eq!(&doc[span.start..span.end], "two");
        }
        other => panic!("{other:?}"),
    }
    // references that are not well formed, placed in the document
    for (doc, at) in [("<t>one &#xzz; two</t>", "x"), ("<t>one &two</t>", "&")] {
        match run(&grammar, &text, doc) {
            Err(ValidatorError::InvalidOrUnclosedEntity { span }) => {
                assert_eq!(&doc[span.start..span.start + 1], at, "{doc}");
            }
            other => panic!("{other:?}"),
        }
    }
    match run(&grammar, &text, "<t>one &amp;&</t>") {
        Err(ValidatorError::InvalidOrUnclosedEntity { .. }) => {}
        other => panic!("{other:?}"),
    }
}

#[test]
fn an_event_that_is_refused_outright_changes_nothing() {
    let grammar = Grammar { rules: vec![] };
    let schema = start(element("a", Pattern::Text));
    let doc = "<!DOCTYPE a [<!ENTITY in \"side\"><!ENTITY out SYSTEM \"elsewhere\">]><a>&in;</a>";
    let mut v = Validator::new(&grammar, &schema, xmlparser::Tokenizer::from(doc)).unwrap();
    let before = v.current();
    let mut refused = 0;
    while let Some(step) = v.validate_next() {
        match step {
            Ok(()) => {}
            Err(ValidatorError::NotAllowed(relaxng_validator::token::XmlToken::EntityDeclaration {
                name,
                definition: relaxng_validator::token::EntityDefinition::ExternalId,
                ..
            })) => {
                assert_eq!(name.as_str(), "out");
                // nothing was taken: the pattern is the one before, and the
                // entity that was declared before is still known afterwards
                assert_eq!(v.current(), before);
                refused += 1;
            }
            Err(other) => panic!("{other:?}"),
        }
    }
    assert_eq!(refused, 1);
    assert!(v.is_complete());
}

#[test]
fn the_layered_schema_is_decided_within_a_second() {
    let (grammar, schema) = alternating_layers();
    let begun = std::time::Instant::now();
    valid(&grammar, &schema, "<root><b/><b/><b/></root>");
    assert!(begun.elapsed() < std::time::Duration::from_secs(1), "{:?}", begun.elapsed());
}

#[test]
fn the_order_of_attributes_does_not_matter() {
    // start = element e { attribute a { text }, attribute b { "x" }?, attribute c { text } }
    let grammar = Grammar { rules: vec![] };
    let schema = start(element(
        "e",
        Pattern::Group(vec![
            attribute("a", Pattern::Text),
            Pattern::Optional(Box::new(attribute("b", token_value("x")))),
            attribute("c", Pattern::Text),
        ]),
    ));
    let mut reached = Vec::new();
    for doc in [
        "<e a='1' b='x' c='3'/>",
        "<e a='1' c='3' b='x'/>",
        "<e b='x' a='1' c='3'/>",
        "<e b='x' c='3' a='1'/>",
        "<e c='3' a='1' b='x'/>",
        "<e c='3' b='x' a='1'/>",
    ] {
        let mut v = Validator::new(&grammar, &schema, xmlparser::Tokenizer::from(doc)).unwrap();
        // the name and the three attributes are only noted; the end of the tag takes them
        for _ in 0..4 {
            assert!(matches!(v.validate_next(), Some(Ok(()))));
        }
        let before = v.current();
        assert!(matches!(v.validate_next(), Some(Ok(()))), "{doc}");
        assert!(v.validate_next().is_none());
        assert!(v.is_complete() && v.current() != before);
        reached.push(v.schema().patt(v.current()));
    }
    assert!(reached.iter().all(|p| *p == Pat::Empty), "{reached:?}");
    invalid(&grammar, &schema, "<e a='1' b='y' c='3'/>");
    invalid(&grammar, &schema, "<e b='x' c='3'/>");
}
