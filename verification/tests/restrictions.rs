// The restrictions that a schema has to meet.

use relaxng_validator::compiler::Compiler;
use relaxng_validator::content::{
    collect_attribute_name_classes, collect_element_name_classes, content_is_empty, content_type,
    count_non_empty_members, groupable, has_text, is_dead, ContentType,
};
use relaxng_validator::datatype::{BuiltinDatatype, BuiltinDatatypeValue, DatatypeValues, Datatypes};
use relaxng_validator::model::{contains, DefineRule, Grammar, NameClass, Pattern, QualifiedName};
use relaxng_validator::nameclass::{
    check_anyname_except, check_attribute_name_class, check_name_class, check_nsname_except,
    collect_name_class_entries, convert_name_class, is_name_excluded_by, name_class_is_infinite,
    name_classes_overlap, CollectedNameClass, RelaxError,
};
use relaxng_validator::restrictions::{
    check_group_attribute_overlap, check_interleave_restrictions, check_pattern, check_start,
    check_string_sequence, WalkContext,
};
use relaxng_validator::span::Span;
use relaxng_validator::check_restrictions;

const AT: Span = Span { start: 2, end: 5 };

fn named(name: &str) -> NameClass {
    NameClass::Named { namespace_uri: String::new(), name: name.to_string() }
}

fn named_in(ns: &str, name: &str) -> NameClass {
    NameClass::Named { namespace_uri: ns.to_string(), name: name.to_string() }
}

fn ns_name(ns: &str, except: Option<NameClass>) -> NameClass {
    NameClass::NsName { namespace_uri: ns.to_string(), except: except.map(Box::new) }
}

fn any_name(except: Option<NameClass>) -> NameClass {
    NameClass::AnyName { except: except.map(Box::new) }
}

fn alt(a: NameClass, b: NameClass) -> NameClass {
    NameClass::Alt { a: Box::new(a), b: Box::new(b) }
}

fn element(name: &str, content: Pattern) -> Pattern {
    Pattern::Element(named(name), Box::new(content))
}

fn attribute(name: &str, content: Pattern) -> Pattern {
    Pattern::Attribute(named(name), Box::new(content))
}

fn opt(p: Pattern) -> Pattern {
    Pattern::Optional(Box::new(p))
}

fn many(p: Pattern) -> Pattern {
    Pattern::ZeroOrMore(Box::new(p))
}

fn some(p: Pattern) -> Pattern {
    Pattern::OneOrMore(Box::new(p))
}

fn list(p: Pattern) -> Pattern {
    Pattern::List(Box::new(p))
}

fn mixed(p: Pattern) -> Pattern {
    Pattern::Mixed(Box::new(p))
}

fn data() -> Pattern {
    Pattern::DatatypeName { datatype: Datatypes::Relax(BuiltinDatatype::String), except: None }
}

fn data_except(p: Pattern) -> Pattern {
    Pattern::DatatypeName {
        datatype: Datatypes::Relax(BuiltinDatatype::Token),
        except: Some(Box::new(p)),
    }
}

fn value(text: &str) -> Pattern {
    Pattern::DatatypeValue {
        datatype: DatatypeValues::Relax(BuiltinDatatypeValue::StringValue(text.to_string())),
    }
}

fn r(index: usize) -> Pattern {
    Pattern::Ref(Span::new(0, 0), format!("rule{index}"), index)
}

fn no_rules() -> Grammar {
    Grammar { rules: vec![] }
}

fn rules(patterns: Vec<Pattern>) -> Grammar {
    Grammar {
        rules: patterns
            .into_iter()
            .map(|pattern| Some(DefineRule { name: String::new(), pattern }))
            .collect(),
    }
}

fn check_in(g: &Grammar, pattern: Pattern) -> Result<(), RelaxError> {
    check_restrictions(g, &DefineRule { name: "start".to_string(), pattern }, AT)
}

fn check(pattern: Pattern) -> Result<(), RelaxError> {
    check_in(&no_rules(), pattern)
}

fn restricted(r: Result<(), RelaxError>) -> (&'static str, &'static str) {
    match r {
        Err(RelaxError::RestrictedPattern { span, pattern_name, context }) => {
            assert_eq!(span, AT);
            (pattern_name, context)
        }
        other => panic!("{other:?}"),
    }
}

#[test]
fn an_infinite_name_class_of_an_attribute_requires_one_or_more() {
    // element m { attribute * - foo:* { text } }
    let wild = || any_name(Some(ns_name("urn:foo", None)));
    let schema = |content: Pattern| element("m", content);
    let lone = schema(Pattern::Attribute(wild(), Box::new(Pattern::Text)));
    assert_eq!(
        restricted(check(lone)),
        ("attribute with infinite name class", "outside oneOrMore")
    );
    assert!(check(schema(some(Pattern::Attribute(wild(), Box::new(Pattern::Text))))).is_ok());
    assert!(check(schema(many(Pattern::Attribute(wild(), Box::new(Pattern::Text))))).is_ok());
    assert_eq!(
        restricted(check(schema(opt(Pattern::Attribute(ns_name("u", None), Box::new(Pattern::Text)))))),
        ("attribute with infinite name class", "outside oneOrMore")
    );
    assert!(check(schema(attribute("a", Pattern::Text))).is_ok());
}

#[test]
fn the_start_holds_elements_only() {
    assert!(check(element("a", Pattern::Empty)).is_ok());
    assert!(check(Pattern::Choice(vec![element("a", Pattern::Empty), element("b", Pattern::Text)])).is_ok());
    assert!(check(Pattern::NotAllowed).is_ok());
    // an optional element is a choice with empty, which a start must not be
    assert_eq!(restricted(check(opt(element("a", Pattern::Empty)))), ("empty", "start"));
    assert_eq!(
        restricted(check(Pattern::Choice(vec![element("a", Pattern::Empty), Pattern::Empty]))),
        ("empty", "start")
    );
    assert_eq!(restricted(check(opt(Pattern::Text))), ("text", "start"));
    assert_eq!(restricted(check(opt(Pattern::NotAllowed))), ("empty", "start"));
    assert!(check(Pattern::Group(vec![Pattern::Empty, element("a", Pattern::Empty)])).is_ok());
    assert!(check(Pattern::Interleave(vec![element("a", Pattern::Empty), Pattern::Empty])).is_ok());
    // what matches nothing would be removed
    assert!(check(Pattern::Group(vec![Pattern::Text, Pattern::NotAllowed])).is_ok());
    assert!(check(Pattern::Choice(vec![Pattern::Group(vec![Pattern::Text, Pattern::NotAllowed]), element("a", Pattern::Empty)])).is_ok());
    assert_eq!(restricted(check(Pattern::Text)), ("text", "start"));
    assert_eq!(restricted(check(Pattern::Empty)), ("empty", "start"));
    assert_eq!(restricted(check(attribute("a", Pattern::Text))), ("attribute", "start"));
    assert_eq!(restricted(check(list(data()))), ("list", "start"));
    assert_eq!(restricted(check(some(element("a", Pattern::Empty)))), ("oneOrMore", "start"));
    assert_eq!(restricted(check(many(element("a", Pattern::Empty)))), ("zeroOrMore", "start"));
    assert_eq!(restricted(check(mixed(element("a", Pattern::Empty)))), ("mixed", "start"));
    assert_eq!(restricted(check(value("x"))), ("value", "start"));
    assert_eq!(restricted(check(data())), ("data", "start"));
    assert_eq!(
        restricted(check(Pattern::Group(vec![element("a", Pattern::Empty), element("b", Pattern::Empty)]))),
        ("group", "start")
    );
    assert_eq!(
        restricted(check(Pattern::Interleave(vec![element("a", Pattern::Empty), element("b", Pattern::Empty)]))),
        ("interleave", "start")
    );
    assert_eq!(restricted(check(Pattern::Group(vec![Pattern::Empty, Pattern::Empty]))), ("group", "start"));
    assert_eq!(
        restricted(check(Pattern::Choice(vec![element("a", Pattern::Empty), Pattern::Text]))),
        ("text", "start")
    );
    // references are followed, each once
    let g = rules(vec![Pattern::Choice(vec![element("a", opt(r(0))), r(0)]), Pattern::Text]);
    assert!(check_in(&g, r(0)).is_ok());
    assert_eq!(restricted(check_in(&g, r(1))), ("text", "start"));
    assert_eq!(restricted(check_in(&g, Pattern::Choice(vec![r(0), r(1)]))), ("text", "start"));
    assert!(check_in(&g, r(9)).is_ok());
}

#[test]
fn what_a_list_must_not_hold() {
    let within = |p: Pattern| check(element("e", list(p)));
    assert!(within(data()).is_ok());
    assert!(within(some(value("x"))).is_ok());
    assert!(within(Pattern::Group(vec![data(), value("x")])).is_ok());
    assert!(within(Pattern::Choice(vec![data(), Pattern::Empty])).is_ok());
    assert_eq!(restricted(within(list(data()))), ("list", "list"));
    assert_eq!(restricted(within(Pattern::Interleave(vec![data(), Pattern::Empty]))), ("interleave", "list"));
    assert_eq!(restricted(within(mixed(Pattern::Empty))), ("interleave", "list"));
    assert_eq!(restricted(within(attribute("a", Pattern::Text))), ("attribute", "list"));
    assert_eq!(restricted(within(element("a", Pattern::Text))), ("element", "list"));
    assert_eq!(restricted(within(Pattern::Text)), ("text", "list"));
    assert_eq!(restricted(within(opt(Pattern::Text))), ("text", "list"));
}

#[test]
fn what_an_exception_of_data_must_not_hold() {
    let within = |p: Pattern| check(element("e", data_except(p)));
    assert!(within(value("x")).is_ok());
    assert!(within(Pattern::Choice(vec![value("x"), value("y")])).is_ok());
    assert!(within(data_except(value("x"))).is_ok());
    assert_eq!(restricted(within(element("a", Pattern::Text))), ("element", "data/except"));
    assert_eq!(restricted(within(attribute("a", Pattern::Text))), ("attribute", "data/except"));
    assert_eq!(restricted(within(list(data()))), ("list", "data/except"));
    assert_eq!(restricted(within(Pattern::Text)), ("text", "data/except"));
    assert_eq!(restricted(within(Pattern::Empty)), ("empty", "data/except"));
    assert_eq!(restricted(within(Pattern::Group(vec![value("x"), Pattern::Empty]))), ("group", "data/except"));
    assert_eq!(
        restricted(within(Pattern::Interleave(vec![value("x"), Pattern::Empty]))),
        ("interleave", "data/except")
    );
    assert_eq!(restricted(within(mixed(Pattern::Empty))), ("interleave", "data/except"));
    assert_eq!(restricted(within(some(value("x")))), ("oneOrMore", "data/except"));
    assert_eq!(restricted(within(many(value("x")))), ("oneOrMore", "data/except"));
}

#[test]
fn attributes_in_attributes_and_in_repeated_groups() {
    let within = |p: Pattern| check(element("e", p));
    assert_eq!(
        restricted(within(attribute("a", attribute("b", Pattern::Text)))),
        ("attribute", "attribute")
    );
    assert_eq!(
        restricted(within(some(Pattern::Group(vec![attribute("a", Pattern::Text), element("b", Pattern::Empty)])))),
        ("attribute", "oneOrMore//group")
    );
    assert_eq!(
        restricted(within(many(Pattern::Interleave(vec![element("b", Pattern::Empty), attribute("a", Pattern::Text)])))),
        ("attribute", "oneOrMore//group")
    );
    assert_eq!(
        restricted(within(some(mixed(attribute("a", Pattern::Empty))))),
        ("attribute", "oneOrMore//group")
    );
    // a group of one member and `empty` is no group
    assert!(within(some(Pattern::Group(vec![attribute("a", Pattern::Text), Pattern::Empty]))).is_ok());
    assert!(within(some(Pattern::Group(vec![some(Pattern::Attribute(any_name(None), Box::new(Pattern::Text))), Pattern::Empty]))).is_ok());
    // an element starts anew
    assert!(within(some(Pattern::Group(vec![
        element("b", attribute("a", Pattern::Text)),
        element("c", Pattern::Empty)
    ])))
    .is_ok());
}

#[test]
fn names_that_attributes_must_not_have() {
    let with = |nc: NameClass| check(element("e", some(Pattern::Attribute(nc, Box::new(Pattern::Text)))));
    assert!(matches!(with(named("xmlns")), Err(RelaxError::XmlnsAttributeForbidden)));
    assert!(with(named_in("urn:x", "xmlns")).is_ok());
    assert!(matches!(
        with(named_in("http://www.w3.org/2000/xmlns", "a")),
        Err(RelaxError::XmlnsNamespaceForbidden)
    ));
    assert!(matches!(
        with(ns_name("http://www.w3.org/2000/xmlns", None)),
        Err(RelaxError::XmlnsNamespaceForbidden)
    ));
    assert!(matches!(with(any_name(Some(named("xmlns")))), Err(RelaxError::XmlnsAttributeForbidden)));
    assert!(matches!(with(alt(named("a"), named("xmlns"))), Err(RelaxError::XmlnsAttributeForbidden)));
    assert!(matches!(
        with(ns_name("urn:x", Some(named_in("http://www.w3.org/2000/xmlns", "a")))),
        Err(RelaxError::XmlnsNamespaceForbidden)
    ));
    assert!(check_attribute_name_class(&named("a")).is_ok());
    // elements may have these names
    assert!(check(Pattern::Element(named("xmlns"), Box::new(Pattern::Empty))).is_ok());
}

#[test]
fn exceptions_in_name_classes() {
    assert!(check_name_class(&any_name(Some(named("a")))).is_ok());
    assert!(check_name_class(&any_name(Some(ns_name("u", None)))).is_ok());
    assert!(check_name_class(&any_name(Some(alt(named("a"), ns_name("u", Some(named("b"))))))).is_ok());
    assert!(matches!(check_name_class(&any_name(Some(any_name(None)))), Err(RelaxError::AnyNameInExcept)));
    assert!(matches!(
        check_name_class(&any_name(Some(alt(named("a"), any_name(None))))),
        Err(RelaxError::AnyNameInExcept)
    ));
    assert!(matches!(
        check_name_class(&any_name(Some(ns_name("u", Some(any_name(None)))))),
        Err(RelaxError::AnyNameInExcept)
    ));
    assert!(matches!(
        check_name_class(&ns_name("u", Some(any_name(None)))),
        Err(RelaxError::AnyNameInNsNameExcept)
    ));
    assert!(matches!(
        check_name_class(&ns_name("u", Some(ns_name("v", None)))),
        Err(RelaxError::NsNameInNsNameExcept)
    ));
    assert!(matches!(
        check_name_class(&ns_name("u", Some(alt(named("a"), ns_name("v", None))))),
        Err(RelaxError::NsNameInNsNameExcept)
    ));
    assert!(matches!(
        check_name_class(&alt(named("a"), ns_name("u", Some(ns_name("v", None))))),
        Err(RelaxError::NsNameInNsNameExcept)
    ));
    assert!(check_name_class(&named("a")).is_ok());
    assert!(check_anyname_except(&named("a")).is_ok());
    assert!(matches!(check_anyname_except(&any_name(None)), Err(RelaxError::AnyNameInExcept)));
    assert!(check_nsname_except(&alt(named("a"), named("b"))).is_ok());
    assert!(matches!(check_nsname_except(&ns_name("u", None)), Err(RelaxError::NsNameInNsNameExcept)));
    assert!(matches!(
        check(Pattern::Element(any_name(Some(any_name(None))), Box::new(Pattern::Empty))),
        Err(RelaxError::AnyNameInExcept)
    ));
    assert!(!name_class_is_infinite(&named("a")) && !name_class_is_infinite(&alt(named("a"), named("b"))));
    assert!(name_class_is_infinite(&any_name(None)) && name_class_is_infinite(&ns_name("u", None)));
    assert!(name_class_is_infinite(&alt(named("a"), ns_name("u", None))));
}

#[test]
fn kinds_of_content_in_a_group() {
    let within = |members: Vec<Pattern>| check(element("e", Pattern::Group(members)));
    assert!(within(vec![element("a", Pattern::Empty), element("b", Pattern::Empty)]).is_ok());
    assert!(within(vec![element("a", Pattern::Empty), Pattern::Text]).is_ok());
    assert!(within(vec![attribute("a", data()), data()]).is_ok());
    assert!(within(vec![Pattern::Empty, data(), Pattern::Empty]).is_ok());
    assert!(within(vec![data(), Pattern::Group(vec![Pattern::Text, Pattern::NotAllowed])]).is_ok());
    assert_eq!(restricted(within(vec![data(), data()])), ("string sequence", "group/interleave"));
    assert_eq!(restricted(within(vec![data(), element("a", Pattern::Empty)])), ("string sequence", "group/interleave"));
    assert_eq!(restricted(within(vec![Pattern::Text, value("x")])), ("string sequence", "group/interleave"));
    assert_eq!(restricted(within(vec![list(data()), opt(element("a", Pattern::Empty))])), ("string sequence", "group/interleave"));
    assert_eq!(
        restricted(check(element("e", Pattern::Interleave(vec![data(), element("a", Pattern::Empty)])))),
        ("string sequence", "group/interleave")
    );
    // in a list the tokens follow each other
    assert!(check(element("e", list(Pattern::Group(vec![data(), data()])))).is_ok());
    let g = no_rules();
    assert!(check_string_sequence(&g, &vec![data(), Pattern::Empty], AT).is_ok());
    assert!(check_string_sequence(&g, &vec![], AT).is_ok());
    assert!(check_string_sequence(&g, &vec![data(), Pattern::Empty, data()], AT).is_err());
}

#[test]
fn attributes_of_a_group_must_not_overlap() {
    let within = |members: Vec<Pattern>| check(element("e", Pattern::Group(members)));
    let att = |nc: NameClass| some(Pattern::Attribute(nc, Box::new(Pattern::Text)));
    assert!(within(vec![attribute("a", Pattern::Text), attribute("b", Pattern::Text)]).is_ok());
    assert!(matches!(
        within(vec![attribute("a", Pattern::Text), opt(attribute("a", Pattern::Text))]),
        Err(RelaxError::OverlappingAttributes { span: AT })
    ));
    assert!(matches!(
        within(vec![attribute("a", Pattern::Text), att(any_name(None))]),
        Err(RelaxError::OverlappingAttributes { .. })
    ));
    assert!(within(vec![attribute("a", Pattern::Text), att(any_name(Some(named("a"))))]).is_ok());
    assert!(within(vec![attribute("a", Pattern::Text), att(ns_name("urn:x", None))]).is_ok());
    assert!(matches!(
        within(vec![att(ns_name("urn:x", None)), att(any_name(Some(named("a"))))]),
        Err(RelaxError::OverlappingAttributes { .. })
    ));
    // the attributes of one member may overlap: they are alternatives
    assert!(within(vec![Pattern::Choice(vec![attribute("a", Pattern::Text), attribute("a", data())])]).is_ok());
    // attributes of elements inside do not count
    assert!(within(vec![attribute("a", Pattern::Text), element("x", attribute("a", Pattern::Text))]).is_ok());
    assert!(matches!(
        check(element("e", Pattern::Interleave(vec![attribute("a", Pattern::Text), attribute("a", Pattern::Text)]))),
        Err(RelaxError::OverlappingAttributes { .. })
    ));
    let g = rules(vec![attribute("a", Pattern::Text)]);
    assert!(check_group_attribute_overlap(&g, &vec![r(0), attribute("b", Pattern::Text)], AT).is_ok());
    assert!(check_group_attribute_overlap(&g, &vec![r(0), attribute("a", Pattern::Text)], AT).is_err());
    assert!(check_group_attribute_overlap(&g, &vec![r(0), Pattern::Text, r(0)], AT).is_err());
}

#[test]
fn branches_of_an_interleave_must_not_overlap() {
    let within = |members: Vec<Pattern>| check(element("e", Pattern::Interleave(members)));
    assert!(within(vec![element("a", Pattern::Empty), element("b", Pattern::Empty)]).is_ok());
    assert!(within(vec![element("a", Pattern::Empty), Pattern::Text]).is_ok());
    assert!(matches!(
        within(vec![element("a", Pattern::Empty), opt(element("a", Pattern::Text))]),
        Err(RelaxError::OverlappingElements { span: AT })
    ));
    assert!(matches!(
        within(vec![element("a", Pattern::Empty), Pattern::Element(any_name(None), Box::new(Pattern::Empty))]),
        Err(RelaxError::OverlappingElements { .. })
    ));
    assert_eq!(
        restricted(within(vec![Pattern::Text, many(Pattern::Choice(vec![element("a", Pattern::Empty), Pattern::Text]))])),
        ("text", "interleave (both branches)")
    );
    assert_eq!(
        restricted(within(vec![mixed(element("a", Pattern::Empty)), Pattern::Text])),
        ("text", "interleave (both branches)")
    );
    assert_eq!(
        restricted(check(element("e", mixed(mixed(element("a", Pattern::Empty)))))),
        ("text", "interleave (both branches via nested mixed)")
    );
    assert_eq!(
        restricted(check(element("e", mixed(Pattern::Group(vec![element("a", Pattern::Empty), Pattern::Text]))))),
        ("text", "interleave (both branches via nested mixed)")
    );
    assert!(check(element("e", mixed(element("a", Pattern::Text)))).is_ok());
    let g = no_rules();
    assert!(check_interleave_restrictions(&g, &vec![], AT).is_ok());
    assert!(check_interleave_restrictions(&g, &vec![Pattern::Text, Pattern::NotAllowed, element("a", Pattern::Text)], AT).is_ok());
}

#[test]
fn patterns_that_match_nothing() {
    assert!(is_dead(&Pattern::NotAllowed));
    assert!(is_dead(&Pattern::Group(vec![Pattern::Text, Pattern::NotAllowed])));
    assert!(is_dead(&Pattern::Interleave(vec![Pattern::NotAllowed, Pattern::Text])));
    assert!(is_dead(&some(Pattern::NotAllowed)) && is_dead(&list(Pattern::NotAllowed)));
    assert!(is_dead(&Pattern::Choice(vec![Pattern::NotAllowed, Pattern::NotAllowed])));
    assert!(is_dead(&Pattern::Choice(vec![])));
    assert!(is_dead(&attribute("a", Pattern::NotAllowed)));
    assert!(!is_dead(&Pattern::Choice(vec![Pattern::NotAllowed, Pattern::Empty])));
    assert!(!is_dead(&many(Pattern::NotAllowed)) && !is_dead(&opt(Pattern::NotAllowed)));
    assert!(!is_dead(&element("a", Pattern::NotAllowed)) && !is_dead(&mixed(Pattern::NotAllowed)));
    assert!(!is_dead(&Pattern::Group(vec![])) && !is_dead(&Pattern::Text) && !is_dead(&r(0)));
    assert!(content_is_empty(&Pattern::Empty) && content_is_empty(&Pattern::NotAllowed));
    assert!(!content_is_empty(&Pattern::Text) && !content_is_empty(&Pattern::Group(vec![])));
    assert_eq!(count_non_empty_members(&vec![]), 0);
    assert_eq!(count_non_empty_members(&vec![Pattern::Empty, Pattern::Text, Pattern::Empty, Pattern::NotAllowed]), 2);
}

#[test]
fn text_and_kinds_of_content() {
    let g = rules(vec![Pattern::Text, opt(r(1)), element("a", r(2))]);
    let depth = g.rules.len();
    assert!(has_text(&g, &Pattern::Text, depth) && has_text(&g, &mixed(Pattern::Empty), depth));
    assert!(has_text(&g, &Pattern::Group(vec![Pattern::Empty, many(Pattern::Text)]), depth));
    assert!(has_text(&g, &r(0), depth) && has_text(&g, &Pattern::Choice(vec![data(), r(0)]), depth));
    assert!(!has_text(&g, &element("a", Pattern::Text), depth) && !has_text(&g, &data(), depth));
    assert!(!has_text(&g, &Pattern::Group(vec![Pattern::Text, Pattern::NotAllowed]), depth));
    // a definition that refers to itself outside of an element holds none
    assert!(!has_text(&g, &r(1), depth) && !has_text(&g, &r(7), depth));
    assert!(!has_text(&g, &r(0), 0));
    assert_eq!(content_type(&g, &Pattern::Empty, depth), ContentType::Empty);
    assert_eq!(content_type(&g, &Pattern::NotAllowed, depth), ContentType::Empty);
    assert_eq!(content_type(&g, &attribute("a", data()), depth), ContentType::Empty);
    assert_eq!(content_type(&g, &Pattern::Text, depth), ContentType::Complex);
    assert_eq!(content_type(&g, &element("a", data()), depth), ContentType::Complex);
    assert_eq!(content_type(&g, &mixed(Pattern::Empty), depth), ContentType::Complex);
    assert_eq!(content_type(&g, &data(), depth), ContentType::Simple);
    assert_eq!(content_type(&g, &value("x"), depth), ContentType::Simple);
    assert_eq!(content_type(&g, &list(data()), depth), ContentType::Simple);
    assert_eq!(content_type(&g, &Pattern::Choice(vec![Pattern::Empty, Pattern::Text, data()]), depth), ContentType::Simple);
    assert_eq!(content_type(&g, &Pattern::Group(vec![Pattern::Empty, element("a", Pattern::Empty)]), depth), ContentType::Complex);
    assert_eq!(content_type(&g, &Pattern::Group(vec![]), depth), ContentType::Empty);
    assert_eq!(content_type(&g, &some(opt(data())), depth), ContentType::Simple);
    assert_eq!(content_type(&g, &r(0), depth), ContentType::Complex);
    assert_eq!(content_type(&g, &r(1), depth), ContentType::Complex);
    assert_eq!(content_type(&g, &r(7), depth), ContentType::Empty);
    assert!(groupable(ContentType::Empty, ContentType::Simple) && groupable(ContentType::Simple, ContentType::Empty));
    assert!(groupable(ContentType::Complex, ContentType::Complex) && groupable(ContentType::Empty, ContentType::Empty));
    assert!(!groupable(ContentType::Simple, ContentType::Simple) && !groupable(ContentType::Simple, ContentType::Complex));
    assert!(!groupable(ContentType::Complex, ContentType::Simple));
}

fn shape(c: &CollectedNameClass) -> String {
    let list = |v: &Vec<CollectedNameClass>| v.iter().map(shape).collect::<Vec<_>>().join(",");
    match c {
        CollectedNameClass::Named { namespace_uri, name } => format!("{{{namespace_uri}}}{name}"),
        CollectedNameClass::NsName { namespace_uri, except } => format!("{{{namespace_uri}}}*-[{}]", list(except)),
        CollectedNameClass::AnyName { except } => format!("*-[{}]", list(except)),
    }
}

#[test]
fn name_classes_are_collected_without_alternatives() {
    let entries = |nc: &NameClass| {
        let mut out = vec![CollectedNameClass::AnyName { except: vec![] }];
        collect_name_class_entries(nc, &mut out);
        out.iter().skip(1).map(shape).collect::<Vec<_>>()
    };
    assert_eq!(entries(&named_in("u", "a")), ["{u}a"]);
    assert_eq!(entries(&alt(named("a"), alt(ns_name("u", None), named("b")))), ["{}a", "{u}*-[]", "{}b"]);
    assert_eq!(
        entries(&any_name(Some(alt(named("a"), ns_name("u", Some(alt(named_in("u", "x"), named_in("u", "y")))))))),
        ["*-[{}a,{u}*-[{u}x,{u}y]]"]
    );
    assert_eq!(shape(&convert_name_class(&named("a"))), "{}a");
    assert_eq!(shape(&convert_name_class(&ns_name("u", Some(named_in("u", "a"))))), "{u}*-[{u}a]");
    // of alternatives the most general stands for all, the last of them
    assert_eq!(shape(&convert_name_class(&alt(named("a"), named("b")))), "{}b");
    assert_eq!(shape(&convert_name_class(&alt(ns_name("u", None), alt(named("a"), ns_name("v", None))))), "{v}*-[]");
    assert_eq!(shape(&convert_name_class(&alt(any_name(Some(named("a"))), ns_name("v", None)))), "*-[{}a]");

    let g = rules(vec![attribute("r", Pattern::Text)]);
    let attributes = |p: &Pattern| {
        let mut out = vec![];
        collect_attribute_name_classes(&g, p, &mut out, g.rules.len());
        out.iter().map(shape).collect::<Vec<_>>()
    };
    let elements = |p: &Pattern| {
        let mut out = vec![];
        collect_element_name_classes(&g, p, &mut out, g.rules.len());
        out.iter().map(shape).collect::<Vec<_>>()
    };
    let p = Pattern::Group(vec![
        attribute("a", Pattern::Text),
        opt(Pattern::Attribute(alt(named("b"), named("c")), Box::new(Pattern::Text))),
        element("x", attribute("inner", Pattern::Text)),
        many(Pattern::Choice(vec![element("y", Pattern::Text), r(0), attribute("dead", Pattern::NotAllowed)])),
        mixed(element("z", Pattern::Empty)),
    ]);
    assert_eq!(attributes(&p), ["{}a", "{}b", "{}c", "{}r"]);
    assert_eq!(elements(&p), ["{}x", "{}y", "{}z"]);
    assert_eq!(attributes(&Pattern::Group(vec![attribute("a", Pattern::Text), Pattern::NotAllowed])), Vec::<String>::new());
    assert_eq!(elements(&Pattern::Interleave(vec![element("a", Pattern::Text), Pattern::NotAllowed])), Vec::<String>::new());
    assert_eq!(elements(&element("a", Pattern::NotAllowed)), ["{}a"]);
}

#[test]
fn name_classes_that_can_hold_one_name() {
    let c = |nc: NameClass| convert_name_class(&nc);
    let overlap = |a: NameClass, b: NameClass| {
        let (a, b) = (c(a), c(b));
        let r = name_classes_overlap(&a, &b);
        assert_eq!(r, name_classes_overlap(&b, &a), "{} {}", shape(&a), shape(&b));
        r
    };
    assert!(overlap(named_in("u", "a"), named_in("u", "a")));
    assert!(!overlap(named_in("u", "a"), named_in("u", "b")));
    assert!(!overlap(named_in("u", "a"), named_in("v", "a")));
    assert!(overlap(named_in("u", "a"), ns_name("u", None)));
    assert!(!overlap(named_in("u", "a"), ns_name("v", None)));
    assert!(!overlap(named_in("u", "a"), ns_name("u", Some(named_in("u", "a")))));
    assert!(overlap(named_in("u", "a"), ns_name("u", Some(named_in("u", "b")))));
    assert!(overlap(named_in("u", "a"), ns_name("u", Some(alt(named_in("u", "b"), named_in("v", "a"))))));
    assert!(!overlap(named_in("u", "a"), ns_name("u", Some(alt(named_in("u", "b"), named_in("u", "a"))))));
    assert!(overlap(named("a"), any_name(None)));
    assert!(!overlap(named("a"), any_name(Some(named("a")))));
    assert!(overlap(named("a"), any_name(Some(named("b")))));
    assert!(!overlap(named_in("u", "a"), any_name(Some(ns_name("u", None)))));
    assert!(overlap(named_in("u", "a"), any_name(Some(ns_name("v", None)))));
    assert!(overlap(named_in("u", "a"), any_name(Some(ns_name("u", Some(named_in("u", "a")))))));
    assert!(!overlap(named_in("u", "a"), any_name(Some(ns_name("u", Some(named_in("u", "b")))))));
    assert!(overlap(ns_name("u", None), ns_name("u", Some(named_in("u", "a")))));
    assert!(!overlap(ns_name("u", None), ns_name("v", None)));
    assert!(overlap(ns_name("u", None), any_name(None)));
    assert!(overlap(ns_name("u", None), any_name(Some(ns_name("u", None)))));
    assert!(overlap(any_name(None), any_name(Some(any_name(None)))));
    assert!(is_name_excluded_by("u", "a", &vec![c(named_in("u", "b")), c(named_in("u", "a"))]));
    assert!(!is_name_excluded_by("u", "a", &vec![]));
    assert!(is_name_excluded_by("u", "a", &vec![c(any_name(None))]));
    assert!(!is_name_excluded_by("u", "a", &vec![c(any_name(Some(named_in("u", "a"))))]));
    assert!(is_name_excluded_by("u", "a", &vec![c(any_name(Some(any_name(Some(named_in("u", "a"))))))]));
}

#[test]
fn names_that_a_name_class_holds() {
    let q = |ns: Option<&str>, local: &str| QualifiedName {
        namespace_uri: ns.map(str::to_string),
        local_name: local.to_string(),
    };
    assert!(contains(&named("a"), &q(None, "a")));
    assert!(!contains(&named("a"), &q(None, "b")) && !contains(&named("a"), &q(Some("u"), "a")));
    assert!(contains(&named("a"), &q(Some(""), "a")));
    assert!(contains(&named_in("u", "a"), &q(Some("u"), "a")));
    assert!(!contains(&named_in("u", "a"), &q(None, "a")) && !contains(&named_in("u", "a"), &q(Some("v"), "a")));
    assert!(contains(&ns_name("u", None), &q(Some("u"), "anything")));
    assert!(!contains(&ns_name("u", None), &q(Some("v"), "a")) && !contains(&ns_name("u", None), &q(None, "a")));
    assert!(contains(&ns_name("", None), &q(None, "a")));
    assert!(!contains(&ns_name("u", Some(named_in("u", "a"))), &q(Some("u"), "a")));
    assert!(contains(&ns_name("u", Some(named_in("u", "a"))), &q(Some("u"), "b")));
    assert!(contains(&any_name(None), &q(None, "a")) && contains(&any_name(None), &q(Some("u"), "a")));
    assert!(!contains(&any_name(Some(ns_name("u", None))), &q(Some("u"), "a")));
    assert!(contains(&any_name(Some(ns_name("u", None))), &q(Some("v"), "a")));
    assert!(contains(&any_name(Some(alt(ns_name("u", None), named("x")))), &q(None, "y")));
    assert!(!contains(&any_name(Some(alt(ns_name("u", None), named("x")))), &q(None, "x")));
    assert!(contains(&alt(named("a"), named("b")), &q(None, "b")));
    assert!(!contains(&alt(named("a"), named("b")), &q(None, "c")));
}

#[test]
fn the_walk_looks_into_a_definition_once() {
    use_context();
}

fn use_context() {
    let g = rules(vec![Pattern::Text, element("a", r(1))]);
    let mut seen = std::collections::HashSet::new();
    let ctx = WalkContext::default();
    assert!(!ctx.in_list && !ctx.in_data_except && !ctx.in_attribute && !ctx.in_one_or_more && !ctx.in_one_or_more_group);
    assert!(check_pattern(&g, &r(0), ctx, AT, &mut seen, 2).is_ok());
    assert!(seen.contains(&0) && !seen.contains(&1));
    let in_list = WalkContext { in_list: true, ..ctx };
    // the definition was looked into before
    assert!(check_pattern(&g, &r(0), in_list, AT, &mut seen, 2).is_ok());
    let mut fresh = std::collections::HashSet::new();
    assert_eq!(restricted(check_pattern(&g, &r(0), in_list, AT, &mut fresh, 2)), ("text", "list"));
    let mut fresh = std::collections::HashSet::new();
    assert!(check_pattern(&g, &r(1), ctx, AT, &mut fresh, 2).is_ok());
    assert!(fresh.contains(&1));
    let mut fresh = std::collections::HashSet::new();
    assert!(check_start(&g, &r(1), AT, &mut fresh, 2).is_ok());
    let mut fresh = std::collections::HashSet::new();
    assert_eq!(restricted(check_start(&g, &r(0), AT, &mut fresh, 2)), ("text", "start"));
    let _ = Compiler;
}

#[test]
fn an_optional_pattern_is_checked_as_a_choice_with_empty() {
    let schema = |content: Pattern| element("m", content);
    // inside data/except the empty that an optional pattern stands for is refused
    assert!(check(schema(data_except(value("x")))).is_ok());
    assert_eq!(restricted(check(schema(data_except(opt(value("x")))))), ("empty", "data/except"));
    assert_eq!(
        restricted(check(schema(data_except(Pattern::Choice(vec![value("x"), Pattern::Empty]))))),
        ("empty", "data/except")
    );
    // what the pattern itself must not be comes first
    assert_eq!(restricted(check(schema(data_except(opt(Pattern::Text))))), ("text", "data/except"));
    assert_eq!(
        restricted(check(schema(data_except(Pattern::Choice(vec![Pattern::Text, Pattern::Empty]))))),
        ("text", "data/except")
    );
    assert_eq!(
        restricted(check(schema(data_except(opt(Pattern::NotAllowed))))),
        ("empty", "data/except")
    );
    // elsewhere an optional pattern is what its content is
    for (inner, expected) in [
        (opt(element("b", Pattern::Text)), true),
        (opt(attribute("b", Pattern::Text)), true),
        (opt(Pattern::Group(vec![value("x"), value("y")])), false),
    ] {
        let choice = match &inner {
            Pattern::Optional(c) => {
                let copy = match &**c {
                    Pattern::Element(_, _) => element("b", Pattern::Text),
                    Pattern::Attribute(_, _) => attribute("b", Pattern::Text),
                    _ => Pattern::Group(vec![value("x"), value("y")]),
                };
                Pattern::Choice(vec![copy, Pattern::Empty])
            }
            _ => unreachable!(),
        };
        assert_eq!(check(schema(inner)).is_ok(), expected);
        assert_eq!(check(schema(choice)).is_ok(), expected);
    }
}
