// The pattern pool: interning and the constructors that simplify.

use relaxng_validator::compiler::{Compiler, Param};
use relaxng_validator::datatype::{BuiltinDatatype, BuiltinDatatypeValue, DatatypeValues, Datatypes};
use relaxng_validator::deriv_tag::{Attr, Cont};
use relaxng_validator::model::{NameClass, QualifiedName};
use relaxng_validator::pool::{LimitError, Pat, PatId, Schema};
use relaxng_validator::qname::Bindings;
use relaxng_validator::span::Span;
use std::collections::HashMap;

fn named(name: &str) -> NameClass {
    NameClass::Named { namespace_uri: String::new(), name: name.to_string() }
}

fn nobody() -> Bindings {
    Bindings { pairs: vec![] }
}

#[test]
fn interning_is_idempotent() {
    let mut s = Schema::new();
    assert_eq!(s.len(), 0);
    let e = s.push(Pat::Empty).unwrap();
    let t = s.push(Pat::Text).unwrap();
    assert_eq!((e, t), (PatId(0), PatId(1)));
    assert_eq!(s.push(Pat::Empty), Ok(e));
    assert_eq!(s.push(Pat::Text), Ok(t));
    assert_eq!(s.len(), 2);
    let g = s.push(Pat::Group(t, t, true)).unwrap();
    assert_eq!(s.push(Pat::Group(t, t, true)), Ok(g));
    assert_ne!(s.push(Pat::Group(t, t, false)), Ok(g));
    assert_ne!(s.push(Pat::Interleave(t, t, true)), Ok(g));
    assert_ne!(s.push(Pat::Group(t, e, true)), Ok(g));
    assert_ne!(s.push(Pat::Group(e, t, true)), Ok(g));
    assert_eq!(s.len(), 7);
    assert_eq!(s.patt(g), Pat::Group(t, t, true));
    assert_eq!((s.empty(), s.text()), (Ok(e), Ok(t)));
    let n = s.not_allowed().unwrap();
    assert_eq!(s.not_allowed(), Ok(n));
    assert!(s.is_empty(e) && !s.is_empty(t) && s.is_not_allowed(n) && !s.is_not_allowed(e));
    assert!(s.nullable(e) && s.nullable(t) && !s.nullable(n));
}

#[test]
fn every_kind_of_pattern_has_a_number_of_its_own() {
    let mut s = Schema::new();
    let a = s.push(Pat::Empty).unwrap();
    let b = s.push(Pat::Text).unwrap();
    let all = [
        Pat::Choice(a, b, true),
        Pat::Choice(b, a, true),
        Pat::Interleave(a, b, true),
        Pat::Group(a, b, true),
        Pat::Group(a, b, false),
        Pat::OneOrMore(a, true),
        Pat::OneOrMore(a, false),
        Pat::OneOrMore(b, true),
        Pat::NotAllowed,
        Pat::List(a),
        Pat::List(b),
        Pat::After(a, b),
        Pat::After(b, a),
        Pat::After(a, a),
        Pat::Placeholder(0),
        Pat::Placeholder(1),
        Pat::Placeholder(usize::MAX),
        Pat::Placeholder(1 << 32),
    ];
    let ids: Vec<PatId> = all.iter().map(|p| s.push(*p).unwrap()).collect();
    for (i, p) in all.iter().enumerate() {
        assert_eq!(s.push(*p), Ok(ids[i]));
        assert_eq!(s.patt(ids[i]), *p);
        for j in 0..i {
            assert_ne!(ids[i], ids[j]);
        }
    }
}

#[test]
fn nullable_flags() {
    assert!(Pat::Empty.is_nullable() && Pat::Text.is_nullable());
    assert!(Pat::Choice(PatId(0), PatId(1), true).is_nullable());
    assert!(!Pat::Choice(PatId(0), PatId(1), false).is_nullable());
    assert!(Pat::Group(PatId(0), PatId(1), true).is_nullable());
    assert!(Pat::Interleave(PatId(0), PatId(1), true).is_nullable());
    assert!(Pat::OneOrMore(PatId(0), true).is_nullable() && !Pat::OneOrMore(PatId(0), false).is_nullable());
    for p in [
        Pat::NotAllowed,
        Pat::Attribute(0, PatId(0)),
        Pat::Element(0, PatId(0)),
        Pat::Datatype(0),
        Pat::DatatypeValue(0),
        Pat::DatatypeExcept(0, PatId(0)),
        Pat::List(PatId(0)),
        Pat::Placeholder(0),
        Pat::After(PatId(0), PatId(0)),
    ] {
        assert!(!p.is_nullable(), "{p:?}");
    }
}

#[test]
fn constructors_simplify() {
    let name = named("x");
    let mut s = Schema::new();
    let empty = s.empty().unwrap();
    let none = s.not_allowed().unwrap();
    let text = s.text().unwrap();
    let x = s.element(&name, text).unwrap();
    let y = s.element(&name, empty).unwrap();
    // group and interleave
    assert_eq!(s.group(none, x), Ok(none));
    assert_eq!(s.group(x, none), Ok(none));
    assert_eq!(s.group(empty, x), Ok(x));
    assert_eq!(s.group(x, empty), Ok(x));
    assert_eq!(s.group(empty, empty), Ok(empty));
    assert_eq!(s.interleave(none, x), Ok(none));
    assert_eq!(s.interleave(x, none), Ok(none));
    assert_eq!(s.interleave(empty, x), Ok(x));
    assert_eq!(s.interleave(x, empty), Ok(x));
    let g = s.group(x, y).unwrap();
    assert_eq!(s.patt(g), Pat::Group(x, y, false));
    assert_ne!(s.group(y, x), Ok(g));
    let g = s.group(text, text).unwrap();
    assert_eq!(s.patt(g), Pat::Group(text, text, true));
    let i = s.interleave(x, text).unwrap();
    assert_eq!(s.patt(i), Pat::Interleave(x, text, false));
    assert_eq!(s.mixed(x), Ok(i));
    // after
    assert_eq!(s.after(none, x), Ok(none));
    assert_eq!(s.after(x, none), Ok(none));
    let a = s.after(x, empty).unwrap();
    assert_eq!(s.patt(a), Pat::After(x, empty));
    // one or more
    let m = s.one_or_more(x).unwrap();
    assert_eq!(s.patt(m), Pat::OneOrMore(x, false));
    let m = s.one_or_more(text).unwrap();
    assert_eq!(s.patt(m), Pat::OneOrMore(text, true));
    let l = s.list(x).unwrap();
    assert_eq!(s.patt(l), Pat::List(x));
}

#[test]
fn choices_hold_each_leaf_once() {
    let (na, nb, nc) = (named("a"), named("b"), named("c"));
    let mut s = Schema::new();
    let empty = s.empty().unwrap();
    let none = s.not_allowed().unwrap();
    let a = s.element(&na, empty).unwrap();
    let b = s.element(&nb, empty).unwrap();
    let c = s.element(&nc, empty).unwrap();
    assert_eq!(s.choice(none, a), Ok(a));
    assert_eq!(s.choice(a, none), Ok(a));
    assert_eq!(s.choice(a, a), Ok(a));
    let ab = s.choice(a, b).unwrap();
    assert_eq!(s.patt(ab), Pat::Choice(a, b, false));
    assert_eq!(s.choice(a, b), Ok(ab));
    // every leaf of the right side is in the left side
    assert_eq!(s.choice(ab, a), Ok(ab));
    assert_eq!(s.choice(ab, b), Ok(ab));
    let ba = s.choice(b, a).unwrap();
    assert_eq!(s.choice(ab, ba), Ok(ab));
    // the leaves that are new are kept
    let bc = s.choice(b, c).unwrap();
    let abc = s.choice(ab, bc).unwrap();
    assert_eq!(s.patt(abc), Pat::Choice(ab, c, false));
    let abc2 = s.choice(a, bc).unwrap();
    assert_eq!(s.patt(abc2), Pat::Choice(a, bc, false));
    let ca = s.choice(c, a).unwrap();
    let r = s.choice(b, ca).unwrap();
    assert_eq!(s.patt(r), Pat::Choice(b, ca, false));
    let r = s.choice(ab, ca).unwrap();
    assert_eq!(s.patt(r), Pat::Choice(ab, c, false));
    // a choice with a nullable side is nullable
    let ae = s.choice(a, empty).unwrap();
    assert_eq!(s.patt(ae), Pat::Choice(a, empty, true));
    let size = s.len();
    assert_eq!(s.choice(ae, a), Ok(ae));
    assert_eq!(s.len(), size);
}

#[test]
fn names_datatypes_and_values_have_tables() {
    let (a1, a2, b) = (named("a"), named("a"), named("b"));
    let any = NameClass::AnyName { except: Some(Box::new(named("a"))) };
    let any2 = NameClass::AnyName { except: Some(Box::new(named("a"))) };
    let mut s = Schema::new();
    let text = s.text().unwrap();
    let e1 = s.element(&a1, text).unwrap();
    // equal name classes share a place in the table
    assert_eq!(s.element(&a2, text), Ok(e1));
    assert_ne!(s.element(&b, text), Ok(e1));
    assert_ne!(s.attribute(&a1, text), Ok(e1));
    let w = s.attribute(&any, text).unwrap();
    assert_eq!(s.attribute(&any2, text), Ok(w));
    assert_eq!(s.names_len(), 3);
    match s.patt(w) {
        Pat::Attribute(n, p) => {
            assert_eq!(p, text);
            assert!(matches!(s.name_class(n), NameClass::AnyName { .. }));
        }
        other => panic!("{other:?}"),
    }
    // equal datatypes share a place in the table, and equal patterns a number
    let string = Datatypes::Relax(BuiltinDatatype::String);
    let string2 = Datatypes::Relax(BuiltinDatatype::String);
    let token = Datatypes::Relax(BuiltinDatatype::Token);
    let d = s.datatype_name(&string, None).unwrap();
    let x = s.datatype_name(&string, Some(text)).unwrap();
    assert_eq!(s.datatype_name(&string2, None), Ok(d));
    assert_ne!(s.datatype_name(&token, None), Ok(d));
    match (s.patt(d), s.patt(x)) {
        (Pat::Datatype(i), Pat::DatatypeExcept(j, p)) => {
            assert!(i == j && p == text);
            assert!(matches!(s.datatype(i), Datatypes::Relax(BuiltinDatatype::String)));
        }
        other => panic!("{other:?}"),
    }
    let compile = |name: &str, params: &[(&str, &str)]| {
        let params: Vec<Param> = params
            .iter()
            .map(|(n, v)| Param { span: Span::new(0, 0), name: n.to_string(), value: v.to_string() })
            .collect();
        Datatypes::Xsd(Compiler.compile(&Span::new(0, 0), name, &params).unwrap())
    };
    let small = compile("int", &[("minInclusive", "1"), ("maxExclusive", "10")]);
    let small2 = compile("int", &[("maxExclusive", "10"), ("minInclusive", "1")]);
    let other_bound = compile("int", &[("minInclusive", "1"), ("maxInclusive", "10")]);
    let other_kind = compile("long", &[("minInclusive", "1"), ("maxExclusive", "10")]);
    let written = compile("decimal", &[("pattern", "[0-9]+"), ("minInclusive", "1.0")]);
    let written2 = compile("decimal", &[("pattern", "[0-9]+"), ("minInclusive", "1.0")]);
    let rewritten = compile("decimal", &[("pattern", "[0-9]+"), ("minInclusive", "1.00")]);
    let other_pattern = compile("decimal", &[("pattern", "[0-9]*"), ("minInclusive", "1.0")]);
    let si = s.datatype_name(&small, None).unwrap();
    assert_eq!(s.datatype_name(&small2, None), Ok(si));
    assert_ne!(s.datatype_name(&other_bound, None), Ok(si));
    assert_ne!(s.datatype_name(&other_kind, None), Ok(si));
    let wi = s.datatype_name(&written, None).unwrap();
    assert_eq!(s.datatype_name(&written2, None), Ok(wi));
    assert_ne!(s.datatype_name(&rewritten, None), Ok(wi));
    assert_ne!(s.datatype_name(&other_pattern, None), Ok(wi));
    let one = DatatypeValues::Relax(BuiltinDatatypeValue::TokenValue("one".to_string()));
    let one2 = DatatypeValues::Relax(BuiltinDatatypeValue::TokenValue("one".to_string()));
    let one_string = DatatypeValues::Relax(BuiltinDatatypeValue::StringValue("one".to_string()));
    let two = DatatypeValues::Relax(BuiltinDatatypeValue::TokenValue("two".to_string()));
    let v = s.datatype_value(&one).unwrap();
    assert_eq!(s.datatype_value(&one2), Ok(v));
    assert_ne!(s.datatype_value(&one_string), Ok(v));
    assert_ne!(s.datatype_value(&two), Ok(v));
    match s.patt(v) {
        Pat::DatatypeValue(i) => assert!(matches!(
            s.value(i),
            DatatypeValues::Relax(BuiltinDatatypeValue::TokenValue(t)) if t == "one"
        )),
        other => panic!("{other:?}"),
    }
}

#[test]
fn placeholders_take_the_pattern_of_their_definition() {
    let a = named("a");
    let mut s = Schema::new();
    assert_eq!(s.get_ref(3), None);
    let p = s.ref_placeholder(3, "three").unwrap();
    assert_eq!(s.get_ref(3), Some(p));
    assert_eq!(s.get_ref(4), None);
    assert_eq!(s.patt(p), Pat::Placeholder(3));
    let e = s.element(&a, p).unwrap();
    s.resolve_ref(p, e, "three");
    assert_eq!(s.patt(p), Pat::Element(0, p));
    assert_eq!(s.patt(e), Pat::Element(0, p));
    assert_eq!(s.get_ref(3), Some(p));
    s.resolve_ref(p, p, "three");
    assert_eq!(s.patt(p), Pat::Element(0, p));
}

#[test]
fn derivatives_with_respect_to_text() {
    let ctx = nobody();
    let one = DatatypeValues::Relax(BuiltinDatatypeValue::TokenValue("one".to_string()));
    let token = Datatypes::Relax(BuiltinDatatype::Token);
    let name = named("a");
    let mut s = Schema::new();
    let empty = s.empty().unwrap();
    let none = s.not_allowed().unwrap();
    let text = s.text().unwrap();
    let v = s.datatype_value(&one).unwrap();
    let d = s.datatype_name(&token, None).unwrap();
    let x = s.datatype_name(&token, Some(v)).unwrap();
    let e = s.element(&name, empty).unwrap();
    let a = s.attribute(&name, text).unwrap();
    let deriv = |s: &mut Schema, id: PatId, t: &str| {
        let fuel = s.len() + 1;
        s.text_deriv_memo(&mut HashMap::new(), id, t, &ctx, fuel)
    };
    assert_eq!(deriv(&mut s, text, "anything"), Ok(text));
    assert_eq!(deriv(&mut s, empty, " \n"), Ok(empty));
    assert_eq!(deriv(&mut s, empty, "x"), Ok(none));
    assert_eq!(deriv(&mut s, none, ""), Ok(none));
    assert_eq!(deriv(&mut s, a, ""), Ok(none));
    assert_eq!(deriv(&mut s, e, " "), Ok(e));
    assert_eq!(deriv(&mut s, e, "x"), Ok(none));
    assert_eq!(deriv(&mut s, v, " one "), Ok(empty));
    assert_eq!(deriv(&mut s, v, "two"), Ok(none));
    assert_eq!(deriv(&mut s, d, "whatever"), Ok(empty));
    assert_eq!(deriv(&mut s, x, "two"), Ok(empty));
    assert_eq!(deriv(&mut s, x, "one"), Ok(none));
    // group: the first part takes the text, or the second if the first is nullable
    let tv = s.group(text, v).unwrap();
    let r = deriv(&mut s, tv, "one").unwrap();
    assert_eq!(s.patt(r), Pat::Choice(tv, empty, true));
    let vv = s.group(v, v).unwrap();
    assert_eq!(deriv(&mut s, vv, "one"), Ok(v));
    assert_eq!(deriv(&mut s, vv, "two"), Ok(none));
    // one or more
    let m = s.one_or_more(v).unwrap();
    let r = deriv(&mut s, m, "one").unwrap();
    assert_eq!(s.patt(r), Pat::Choice(m, empty, true));
    // after
    let after = s.after(v, e).unwrap();
    let r = deriv(&mut s, after, "one").unwrap();
    assert_eq!(s.patt(r), Pat::After(empty, e));
    assert_eq!(deriv(&mut s, after, "two"), Ok(none));
    // lists
    let l = s.list(vv).unwrap();
    assert_eq!(deriv(&mut s, l, "one  one"), Ok(empty));
    assert_eq!(deriv(&mut s, l, "one two"), Ok(none));
    let r = deriv(&mut s, l, "one").unwrap();
    assert_eq!(s.patt(r), Pat::List(v));
    // the depth is bounded
    assert_eq!(s.text_deriv_memo(&mut HashMap::new(), tv, "one", &ctx, 0), Err(LimitError::TooDeep));
    assert_eq!(s.text_deriv_memo(&mut HashMap::new(), tv, "one", &ctx, 1), Err(LimitError::TooDeep));
    assert!(s.text_deriv_memo(&mut HashMap::new(), tv, "one", &ctx, 2).is_ok());
    let mut memo = HashMap::new();
    memo.insert(tv.0, none);
    assert_eq!(s.text_deriv_memo(&mut memo, tv, "one", &ctx, 0), Ok(none));
    // a reference that was never resolved
    let p = s.ref_placeholder(0, "p").unwrap();
    assert_eq!(deriv(&mut s, p, ""), Err(LimitError::Unresolved));
}

#[test]
fn derivatives_with_respect_to_tags() {
    let ctx = nobody();
    let (na, nb) = (named("a"), named("b"));
    let mut s = Schema::new();
    let empty = s.empty().unwrap();
    let none = s.not_allowed().unwrap();
    let text = s.text().unwrap();
    let ea = s.element(&na, text).unwrap();
    let eb = s.element(&nb, empty).unwrap();
    let aa = s.attribute(&na, text).unwrap();
    let ab = s.attribute(&nb, empty).unwrap();
    let q = |name: &str| QualifiedName { namespace_uri: None, local_name: name.to_string() };
    let open = |s: &mut Schema, id: PatId, name: &str| {
        let fuel = s.len() + 1;
        s.open_deriv(&mut HashMap::new(), id, &q(name), fuel)
    };
    let att = |s: &mut Schema, id: PatId, name: &str, value: &str| {
        let fuel = s.len() + 1;
        let a = Attr { name: q(name), value: value.to_string(), span: Span::new(0, 0) };
        s.att_deriv(&mut HashMap::new(), id, &a, &ctx, fuel)
    };
    let close = |s: &mut Schema, id: PatId| {
        let fuel = s.len() + 1;
        s.close_deriv(id, fuel)
    };
    let end = |s: &mut Schema, id: PatId| {
        let fuel = s.len() + 1;
        s.end_deriv(id, fuel)
    };
    // start tags
    let r = open(&mut s, ea, "a").unwrap();
    assert_eq!(s.patt(r), Pat::After(text, empty));
    assert_eq!(open(&mut s, ea, "b"), Ok(none));
    assert_eq!(open(&mut s, text, "a"), Ok(none));
    let g = s.group(ea, eb).unwrap();
    let r = open(&mut s, g, "a").unwrap();
    assert_eq!(s.patt(r), Pat::After(text, eb));
    assert_eq!(open(&mut s, g, "b"), Ok(none));
    let i = s.interleave(ea, eb).unwrap();
    let r = open(&mut s, i, "b").unwrap();
    assert_eq!(s.patt(r), Pat::After(empty, ea));
    let m = s.one_or_more(eb).unwrap();
    let r = open(&mut s, m, "b").unwrap();
    match s.patt(r) {
        Pat::After(pa, pb) => {
            assert_eq!(pa, empty);
            assert_eq!(s.patt(pb), Pat::Choice(m, empty, true));
        }
        other => panic!("{other:?}"),
    }
    // end tags
    let inside = s.after(text, eb).unwrap();
    assert_eq!(end(&mut s, inside), Ok(eb));
    let waiting = s.after(ea, eb).unwrap();
    assert_eq!(end(&mut s, waiting), Ok(none));
    assert_eq!(end(&mut s, text), Ok(none));
    let both = s.choice(inside, waiting).unwrap();
    assert_eq!(end(&mut s, both), Ok(eb));
    // attributes
    assert_eq!(att(&mut s, aa, "a", "v"), Ok(empty));
    assert_eq!(att(&mut s, aa, "b", "v"), Ok(none));
    assert_eq!(att(&mut s, ab, "b", " "), Ok(empty));
    assert_eq!(att(&mut s, ab, "b", "v"), Ok(none));
    assert_eq!(att(&mut s, ea, "a", "v"), Ok(none));
    let both = s.group(aa, ab).unwrap();
    assert_eq!(att(&mut s, both, "a", "v"), Ok(ab));
    assert_eq!(att(&mut s, both, "b", ""), Ok(aa));
    assert!(s.value_match(text, "anything", &ctx, 5).unwrap());
    assert!(s.value_match(empty, " ", &ctx, 5).unwrap());
    assert!(!s.value_match(empty, "x", &ctx, 5).unwrap());
    // the end of the start tag
    assert_eq!(close(&mut s, aa), Ok(none));
    assert_eq!(close(&mut s, ea), Ok(ea));
    assert_eq!(close(&mut s, both), Ok(none));
    let optional = s.choice(aa, empty).unwrap();
    assert_eq!(close(&mut s, optional), Ok(empty));
    let content = s.group(optional, ea).unwrap();
    let open_tag = s.after(content, empty).unwrap();
    let closed = close(&mut s, open_tag).unwrap();
    assert_eq!(s.patt(closed), Pat::After(ea, empty));
    // closing twice changes nothing more
    assert_eq!(close(&mut s, closed), Ok(closed));
    // what is owed after an end tag is rewritten
    let r = s.apply_after(inside, Cont::GroupWith(ea), 5).unwrap();
    match s.patt(r) {
        Pat::After(pa, pb) => {
            assert_eq!(pa, text);
            assert_eq!(s.patt(pb), Pat::Group(eb, ea, false));
        }
        other => panic!("{other:?}"),
    }
    assert_eq!(s.apply_after(none, Cont::AfterWith(ea), 5), Ok(none));
    assert_eq!(s.apply_after(text, Cont::AfterWith(ea), 5), Err(LimitError::NotAfter));
    assert_eq!(s.apply_after(inside, Cont::InterleaveWith(ea), 0), Err(LimitError::TooDeep));
}

#[test]
fn the_end_of_a_start_tag_taken_twice_changes_nothing() {
    let (na, nb) = (named("a"), named("b"));
    let mut s = Schema::new();
    let empty = s.empty().unwrap();
    let text = s.text().unwrap();
    let ea = s.element(&na, text).unwrap();
    let eb = s.element(&nb, empty).unwrap();
    let aa = s.attribute(&na, text).unwrap();
    let ab = s.attribute(&nb, text).unwrap();
    let optional_a = s.choice(aa, empty).unwrap();
    let many_b = s.one_or_more(ab).unwrap();
    let any_b = s.choice(many_b, empty).unwrap();
    let children = s.one_or_more(ea).unwrap();
    let either = s.choice(ea, eb).unwrap();
    let mut patterns = vec![empty, text, ea, aa, optional_a, many_b, any_b, children, either];
    for (l, r) in [(optional_a, ea), (any_b, children), (either, optional_a), (aa, ab), (text, any_b)] {
        patterns.push(s.group(l, r).unwrap());
        patterns.push(s.interleave(l, r).unwrap());
        patterns.push(s.choice(l, r).unwrap());
        patterns.push(s.after(l, r).unwrap());
    }
    let nested = patterns.clone();
    for (i, p) in nested.iter().enumerate() {
        let q = nested[(i * 7 + 3) % nested.len()];
        patterns.push(s.choice(*p, q).unwrap());
        patterns.push(s.interleave(*p, q).unwrap());
    }
    for p in patterns {
        let fuel = s.len() + 1;
        let once = s.close_deriv(p, fuel).unwrap();
        let size = s.len();
        let fuel = s.len() + 1;
        let twice = s.close_deriv(once, fuel).unwrap();
        assert_eq!(twice, once, "{:?}", s.patt(p));
        assert_eq!(s.len(), size, "the second time adds nothing");
    }
}

#[test]
fn white_space_between_elements_taken_twice_changes_nothing() {
    let ctx = nobody();
    let (na, nb) = (named("a"), named("b"));
    let mut s = Schema::new();
    let empty = s.empty().unwrap();
    let text = s.text().unwrap();
    let ea = s.element(&na, text).unwrap();
    let eb = s.element(&nb, empty).unwrap();
    let many_a = s.one_or_more(ea).unwrap();
    let any_a = s.choice(many_a, empty).unwrap();
    let either = s.choice(ea, eb).unwrap();
    let mut patterns = vec![empty, text, ea, many_a, any_a, either];
    for (l, r) in [(ea, eb), (any_a, eb), (either, any_a), (text, many_a), (many_a, either)] {
        patterns.push(s.group(l, r).unwrap());
        patterns.push(s.interleave(l, r).unwrap());
        patterns.push(s.choice(l, r).unwrap());
        patterns.push(s.after(l, r).unwrap());
    }
    for p in patterns {
        for blank in ["", " ", "\n\t "] {
            let fuel = s.len() + 1;
            let once = s.text_deriv_memo(&mut HashMap::new(), p, blank, &ctx, fuel).unwrap();
            let fuel = s.len() + 1;
            let twice = s.text_deriv_memo(&mut HashMap::new(), once, blank, &ctx, fuel).unwrap();
            assert_eq!(twice, once, "{:?} on {blank:?}", s.patt(p));
        }
    }
}

#[test]
fn an_empty_text_is_taken_by_one_datatype_at_a_time() {
    // in a group of two patterns that both take a text, the first empty text
    // leaves the second pattern and the second empty text leaves nothing to
    // match: here taking the text twice differs from taking it once
    let ctx = nobody();
    let token = Datatypes::Relax(BuiltinDatatype::Token);
    let mut s = Schema::new();
    let empty = s.empty().unwrap();
    let d = s.datatype_name(&token, None).unwrap();
    let name = named("a");
    let e = s.element(&name, empty).unwrap();
    let many = s.one_or_more(e).unwrap();
    let both = s.group(d, many).unwrap();
    let fuel = s.len() + 1;
    let once = s.text_deriv_memo(&mut HashMap::new(), both, "", &ctx, fuel).unwrap();
    assert_eq!(once, many);
    let fuel = s.len() + 1;
    let twice = s.text_deriv_memo(&mut HashMap::new(), once, "", &ctx, fuel).unwrap();
    assert_ne!(twice, once);
    let rest = s.choice(many, empty).unwrap();
    assert_eq!(s.patt(twice), Pat::Group(e, rest, false));
}

#[test]
fn white_space_unfolds_one_repetition_at_a_time() {
    // interleave { a+, b+ }: each white space unfolds a repetition that was
    // still folded, so the second one adds an alternative to the first
    let ctx = nobody();
    let (na, nb) = (named("a"), named("b"));
    let mut s = Schema::new();
    let empty = s.empty().unwrap();
    let ea = s.element(&na, empty).unwrap();
    let eb = s.element(&nb, empty).unwrap();
    let many_a = s.one_or_more(ea).unwrap();
    let many_b = s.one_or_more(eb).unwrap();
    let both = s.interleave(many_a, many_b).unwrap();
    let fuel = s.len() + 1;
    let once = s.text_deriv_memo(&mut HashMap::new(), both, " ", &ctx, fuel).unwrap();
    let fuel = s.len() + 1;
    let twice = s.text_deriv_memo(&mut HashMap::new(), once, " ", &ctx, fuel).unwrap();
    let fuel = s.len() + 1;
    let thrice = s.text_deriv_memo(&mut HashMap::new(), twice, " ", &ctx, fuel).unwrap();
    assert_ne!(twice, once);
    assert_eq!(thrice, twice);
    assert_eq!(s.nullable(once), s.nullable(twice));
}

#[test]
fn the_end_of_a_start_tag_reaches_into_repetitions() {
    let na = named("a");
    let mut s = Schema::new();
    let text = s.text().unwrap();
    let none = s.not_allowed().unwrap();
    let ea = s.element(&na, text).unwrap();
    let aa = s.attribute(&na, text).unwrap();
    let many_attributes = s.one_or_more(aa).unwrap();
    let many_elements = s.one_or_more(ea).unwrap();
    let fuel = s.len() + 1;
    let closed = s.close_deriv(many_attributes, fuel).unwrap();
    assert_eq!(s.patt(closed), Pat::OneOrMore(none, false));
    let fuel = s.len() + 1;
    assert_eq!(s.close_deriv(many_elements, fuel), Ok(many_elements));
    let fuel = s.len() + 1;
    assert_eq!(s.close_deriv(aa, fuel), Ok(none));
    assert_eq!(s.close_deriv(many_elements, 1), Err(LimitError::TooDeep));
}
