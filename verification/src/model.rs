//! The abstract form of a schema: patterns, name classes and definitions.

use vstd::prelude::*;
use crate::datatype::{DatatypeValues, Datatypes};
use crate::span::Span;
use crate::text::str_eq;

verus! {

/// A set of qualified names.
#[derive(Debug)]
pub enum NameClass {
    /// One name.
    Named { namespace_uri: String, name: String },
    /// Every name of a namespace, but those of `except`.
    NsName { namespace_uri: String, except: Option<Box<NameClass>> },
    /// Every name, but those of `except`.
    AnyName { except: Option<Box<NameClass>> },
    /// The names of `a` and those of `b`.
    Alt { a: Box<NameClass>, b: Box<NameClass> },
}

/// A name class over character sequences.
pub enum NameSet {
    Named { namespace_uri: Seq<char>, name: Seq<char> },
    NsName { namespace_uri: Seq<char>, except: Option<Box<NameSet>> },
    AnyName { except: Option<Box<NameSet>> },
    Alt { a: Box<NameSet>, b: Box<NameSet> },
}

/// The name class over character sequences.
pub open spec fn name_set(nc: NameClass) -> NameSet
    decreases nc,
{
    match nc {
        NameClass::Named { namespace_uri, name } => NameSet::Named {
            namespace_uri: namespace_uri@,
            name: name@,
        },
        NameClass::NsName { namespace_uri, except } => NameSet::NsName {
            namespace_uri: namespace_uri@,
            except: match except {
                Some(e) => Some(Box::new(name_set(*e))),
                None => None,
            },
        },
        NameClass::AnyName { except } => NameSet::AnyName {
            except: match except {
                Some(e) => Some(Box::new(name_set(*e))),
                None => None,
            },
        },
        NameClass::Alt { a, b } => NameSet::Alt {
            a: Box::new(name_set(*a)),
            b: Box::new(name_set(*b)),
        },
    }
}

impl View for NameClass {
    type V = NameSet;

    open spec fn view(&self) -> NameSet {
        name_set(*self)
    }
}

/// Whether a namespace URI of a schema is the namespace of a name; a name in
/// no namespace goes with the empty URI.
pub open spec fn ns_matches(namespace_uri: Seq<char>, target: Option<Seq<char>>) -> bool {
    match target {
        Some(t) => t == namespace_uri,
        None => namespace_uri.len() == 0,
    }
}

/// Whether the name with namespace `ns` and local part `local` belongs to
/// the name class.
pub open spec fn in_name_set(nc: NameSet, ns: Option<Seq<char>>, local: Seq<char>) -> bool
    decreases nc,
{
    match nc {
        NameSet::Named { namespace_uri, name } => ns_matches(namespace_uri, ns) && local == name,
        NameSet::NsName { namespace_uri, except } => ns_matches(namespace_uri, ns) && match except {
            Some(e) => !in_name_set(*e, ns, local),
            None => true,
        },
        NameSet::AnyName { except } => match except {
            Some(e) => !in_name_set(*e, ns, local),
            None => true,
        },
        NameSet::Alt { a, b } => in_name_set(*a, ns, local) || in_name_set(*b, ns, local),
    }
}

/// A name with its namespace resolved.
#[derive(Debug)]
pub struct QualifiedName {
    /// The namespace URI, or `None` for a name in no namespace.
    pub namespace_uri: Option<String>,
    pub local_name: String,
}

impl QualifiedName {
    pub open spec fn ns(&self) -> Option<Seq<char>> {
        match self.namespace_uri {
            Some(u) => Some(u@),
            None => None,
        }
    }
}

pub fn is_ns_match(namespace_uri: &str, target_namespace: Option<&String>) -> (r: bool)
    ensures
        r == ns_matches(
            namespace_uri@,
            match target_namespace {
                Some(t) => Some(t@),
                None => None,
            },
        ),
{
    if let Some(target_namespace) = target_namespace {
        str_eq(target_namespace.as_str(), namespace_uri)
    } else {
        namespace_uri.is_empty()
    }
}

/// Whether `target_name` belongs to the name class.
pub fn contains(nc: &NameClass, target_name: &QualifiedName) -> (r: bool)
    ensures
        r == in_name_set(nc@, target_name.ns(), target_name.local_name@),
    decreases nc,
{
    match nc {
        NameClass::Named { namespace_uri, name } => {
            is_ns_match(namespace_uri.as_str(), target_name.namespace_uri.as_ref()) && str_eq(
                target_name.local_name.as_str(),
                name.as_str(),
            )
        },
        NameClass::NsName { namespace_uri, except } => {
            if is_ns_match(namespace_uri.as_str(), target_name.namespace_uri.as_ref()) {
                if let Some(except_nameclass) = except {
                    !contains(except_nameclass, target_name)
                } else {
                    true
                }
            } else {
                false
            }
        },
        NameClass::AnyName { except } => match except {
            None => true,
            Some(nc) => !contains(nc, target_name),
        },
        NameClass::Alt { a, b } => contains(a, target_name) || contains(b, target_name),
    }
}

/// Whether two name classes are written alike.
pub fn same_name_class(x: &NameClass, y: &NameClass) -> (r: bool)
    ensures
        r == (x@ == y@),
    decreases x,
{
    match (x, y) {
        (
            NameClass::Named { namespace_uri: n1, name: l1 },
            NameClass::Named { namespace_uri: n2, name: l2 },
        ) => str_eq(n1.as_str(), n2.as_str()) && str_eq(l1.as_str(), l2.as_str()),
        (
            NameClass::NsName { namespace_uri: n1, except: e1 },
            NameClass::NsName { namespace_uri: n2, except: e2 },
        ) => str_eq(n1.as_str(), n2.as_str()) && match (e1, e2) {
            (Some(a), Some(b)) => same_name_class(a, b),
            (None, None) => true,
            _ => false,
        },
        (NameClass::AnyName { except: e1 }, NameClass::AnyName { except: e2 }) => match (e1, e2) {
            (Some(a), Some(b)) => same_name_class(a, b),
            (None, None) => true,
            _ => false,
        },
        (NameClass::Alt { a: a1, b: b1 }, NameClass::Alt { a: a2, b: b2 }) => same_name_class(
            a1,
            a2,
        ) && same_name_class(b1, b2),
        _ => false,
    }
}

/// A pattern as the schema wrote it, after references were bound to the
/// definitions they name.
#[allow(inconsistent_fields)]
pub enum Pattern {
    Choice(Vec<Pattern>),
    Interleave(Vec<Pattern>),
    Group(Vec<Pattern>),
    Mixed(Box<Pattern>),
    Empty,
    Text,
    NotAllowed,
    Optional(Box<Pattern>),
    ZeroOrMore(Box<Pattern>),
    OneOrMore(Box<Pattern>),
    Attribute(NameClass, Box<Pattern>),
    Element(NameClass, Box<Pattern>),
    /// A reference: where it stands, the name it uses, and the number of the
    /// definition in the grammar.
    Ref(Span, String, usize),
    DatatypeValue { datatype: DatatypeValues },
    DatatypeName { datatype: Datatypes, except: Option<Box<Pattern>> },
    List(Box<Pattern>),
}

/// A named pattern.
pub struct DefineRule {
    pub name: String,
    pub pattern: Pattern,
}

impl DefineRule {
    pub fn pattern(&self) -> (r: &Pattern)
        ensures
            *r == self.pattern,
    {
        &self.pattern
    }
}

/// The definitions of a schema. A reference holds the number of its
/// definition; a definition that is still missing is `None`.
pub struct Grammar {
    pub rules: Vec<Option<DefineRule>>,
}

impl Grammar {
    /// The pattern of definition `index`, if it is there.
    pub open spec fn rule(&self, index: usize) -> Option<Pattern> {
        if index < self.rules@.len() {
            match self.rules@[index as int] {
                Some(rule) => Some(rule.pattern),
                None => None,
            }
        } else {
            None
        }
    }

    /// The pattern of definition `index`, if it is there.
    pub fn lookup(&self, index: usize) -> (r: Option<&Pattern>)
        ensures
            match r {
                Some(p) => self.rule(index) == Some(*p),
                None => self.rule(index) is None,
            },
    {
        if index < self.rules.len() {
            match &self.rules[index] {
                Some(rule) => Some(&rule.pattern),
                None => None,
            }
        } else {
            None
        }
    }
}

} // verus!
