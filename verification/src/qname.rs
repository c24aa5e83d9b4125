//! Qualified names as values, and the values that a schema can ask for.

use vstd::prelude::*;
use crate::ncname::{is_ncname, is_ncname_range};
use crate::text::{
    chars_of, find_char, index_of, normalize_whitespace, normalized, str_eq, string_of,
};

verus! {

/// A namespace context: it answers which URI a prefix is bound to. The empty
/// prefix asks for the default namespace.
pub trait Namespaces {
    /// The URI that `prefix` is bound to, if it is bound.
    spec fn binding(&self, prefix: Seq<char>) -> Option<Seq<char>>;

    fn resolve(&self, prefix: &str) -> (r: Option<String>)
        ensures
            match r {
                Some(uri) => self.binding(prefix@) == Some(uri@),
                None => self.binding(prefix@) is None,
            },
    ;
}

/// A namespace context given as a list of (prefix, URI) pairs, of which the
/// first for a prefix counts.
#[derive(Debug)]
pub struct Bindings {
    pub pairs: Vec<(String, String)>,
}

impl Namespaces for Bindings {
    open spec fn binding(&self, prefix: Seq<char>) -> Option<Seq<char>> {
        slice_binding(self.pairs@, prefix)
    }

    fn resolve(&self, prefix: &str) -> (r: Option<String>) {
        match lookup_binding(self.pairs.as_slice(), prefix) {
            Some(uri) => Some(uri.to_owned()),
            None => None,
        }
    }
}

/// XSD QName value in the value-space: (namespace_uri, local_name).
/// The namespace_uri is "" for names in no namespace.
#[derive(Debug)]
pub struct QNameVal(pub String, pub String);

/// The URI of the first pair of `ns` whose prefix is `prefix`.
pub open spec fn slice_binding(ns: Seq<(String, String)>, prefix: Seq<char>) -> Option<Seq<char>>
    decreases ns.len(),
{
    if ns.len() == 0 {
        None
    } else if ns[0].0@ == prefix {
        Some(ns[0].1@)
    } else {
        slice_binding(ns.drop_first(), prefix)
    }
}

/// The pair of namespace URI and local name that the text `val` denotes where
/// prefixes are bound as `binding` says. An unprefixed name is in the default
/// namespace, or in none when there is no default.
pub open spec fn qname_value(
    val: Seq<char>,
    binding: spec_fn(Seq<char>) -> Option<Seq<char>>,
) -> Option<(Seq<char>, Seq<char>)> {
    let p = index_of(val, ':');
    if p < val.len() {
        if is_ncname(val.take(p)) && is_ncname(val.skip(p + 1)) {
            match binding(val.take(p)) {
                Some(uri) => Some((uri, val.skip(p + 1))),
                None => None,
            }
        } else {
            None
        }
    } else if is_ncname(val) {
        match binding(Seq::empty()) {
            Some(uri) => Some((uri, val)),
            None => Some((Seq::empty(), val)),
        }
    } else {
        None
    }
}

/// Looks `prefix` up in a list of (prefix, URI) pairs.
pub fn lookup_binding<'a>(ns: &'a [(String, String)], prefix: &str) -> (r: Option<&'a str>)
    ensures
        match r {
            Some(uri) => slice_binding(ns@, prefix@) == Some(uri@),
            None => slice_binding(ns@, prefix@) is None,
        },
{
    let mut i: usize = 0;
    assert(ns@.skip(0) == ns@);
    while i < ns.len()
        invariant
            i <= ns.len(),
            slice_binding(ns@, prefix@) == slice_binding(ns@.skip(i as int), prefix@),
        decreases ns.len() - i,
    {
        assert(ns@.skip(i as int)[0] == ns@[i as int]);
        assert(ns@.skip(i as int).drop_first() == ns@.skip(i + 1));
        if str_eq(ns[i].0.as_str(), prefix) {
            return Some(ns[i].1.as_str());
        }
        i += 1;
    }
    None
}

impl QNameVal {
    /// Whether both values have the same namespace URI and local name.
    pub fn same(&self, other: &QNameVal) -> (r: bool)
        ensures
            r == (self.0@ == other.0@ && self.1@ == other.1@),
    {
        self.0 == other.0 && self.1 == other.1
    }

    /// Resolve a QName string using a slice of (prefix, namespace_uri) bindings.
    pub fn from_val_with_ns_slice(val: &str, ns: &[(String, String)]) -> (r: Result<QNameVal, ()>)
        ensures
            match r {
                Ok(q) => qname_value(val@, |p: Seq<char>| slice_binding(ns@, p)) == Some(
                    (q.0@, q.1@),
                ),
                Err(_) => qname_value(val@, |p: Seq<char>| slice_binding(ns@, p)) is None,
            },
    {
        let v = chars_of(val);
        match find_char(&v, ':') {
            Some(pos) => {
                assert(v@.subrange(0, pos as int) == v@.take(pos as int));
                assert(v@.subrange(pos + 1, v@.len() as int) == v@.skip(pos + 1));
                if is_ncname_range(&v, 0, pos) && is_ncname_range(&v, pos + 1, v.len()) {
                    let prefix = string_of(&v, 0, pos);
                    let localname = string_of(&v, pos + 1, v.len());
                    match lookup_binding(ns, prefix.as_str()) {
                        Some(uri) => Ok(QNameVal(uri.to_owned(), localname)),
                        None => Err(()),
                    }
                } else {
                    Err(())
                }
            },
            None => {
                assert(v@.subrange(0, v@.len() as int) == v@);
                if is_ncname_range(&v, 0, v.len()) {
                    proof {
                        reveal_strlit("");
                        assert(""@ == Seq::<char>::empty());
                    }
                    let default_ns = match lookup_binding(ns, "") {
                        Some(uri) => uri.to_owned(),
                        None => String::new(),
                    };
                    Ok(QNameVal(default_ns, val.to_owned()))
                } else {
                    Err(())
                }
            },
        }
    }

    /// Resolve a QName string using a dynamic namespace context (for instance validation).
    pub fn from_val_with_dyn_ns<N: Namespaces>(val: &str, ns: &N) -> (r: Result<QNameVal, ()>)
        ensures
            match r {
                Ok(q) => qname_value(val@, |p: Seq<char>| ns.binding(p)) == Some((q.0@, q.1@)),
                Err(_) => qname_value(val@, |p: Seq<char>| ns.binding(p)) is None,
            },
    {
        let v = chars_of(val);
        match find_char(&v, ':') {
            Some(pos) => {
                assert(v@.subrange(0, pos as int) == v@.take(pos as int));
                assert(v@.subrange(pos + 1, v@.len() as int) == v@.skip(pos + 1));
                if is_ncname_range(&v, 0, pos) && is_ncname_range(&v, pos + 1, v.len()) {
                    let prefix = string_of(&v, 0, pos);
                    let localname = string_of(&v, pos + 1, v.len());
                    match ns.resolve(prefix.as_str()) {
                        Some(uri) => Ok(QNameVal(uri, localname)),
                        None => Err(()),
                    }
                } else {
                    Err(())
                }
            },
            None => {
                assert(v@.subrange(0, v@.len() as int) == v@);
                if is_ncname_range(&v, 0, v.len()) {
                    proof {
                        reveal_strlit("");
                        assert(""@ == Seq::<char>::empty());
                    }
                    let default_ns = match ns.resolve("") {
                        Some(uri) => uri,
                        None => String::new(),
                    };
                    Ok(QNameVal(default_ns, val.to_owned()))
                } else {
                    Err(())
                }
            },
        }
    }
}

/// A value of one of the XSD types that a schema can ask for.
#[derive(Debug)]
pub enum XsdDatatypeValues {
    String(String),
    Token(String),
    QName(QNameVal),
}

impl XsdDatatypeValues {
    /// Whether the text `value` denotes this value when no prefix is bound.
    /// A `QName` cannot be told without its bindings and is never accepted.
    pub open spec fn accepts(&self, value: Seq<char>) -> bool {
        match self {
            XsdDatatypeValues::String(s) => s@ == value,
            XsdDatatypeValues::Token(s) => s@ == normalized(value),
            XsdDatatypeValues::QName(_) => false,
        }
    }

    /// Whether the text `value` denotes this value where prefixes are bound
    /// as `binding` says.
    pub open spec fn accepts_with(
        &self,
        value: Seq<char>,
        binding: spec_fn(Seq<char>) -> Option<Seq<char>>,
    ) -> bool {
        match self {
            XsdDatatypeValues::QName(v) => qname_value(value, binding) == Some((v.0@, v.1@)),
            _ => self.accepts(value),
        }
    }

    pub fn is_valid(&self, value: &str) -> (r: bool)
        ensures
            r == self.accepts(value@),
    {
        match self {
            XsdDatatypeValues::String(s) => str_eq(s.as_str(), value),
            XsdDatatypeValues::Token(s) => {
                let n = normalize_whitespace(value);
                str_eq(s.as_str(), n.as_str())
            },
            // QName validation requires namespace context; is_valid_with_ns should be used instead.
            XsdDatatypeValues::QName(_) => false,
        }
    }

    pub fn is_valid_with_ns<N: Namespaces>(&self, value: &str, ns: &N) -> (r: bool)
        ensures
            r == self.accepts_with(value@, |p: Seq<char>| ns.binding(p)),
    {
        match self {
            XsdDatatypeValues::QName(v) => match QNameVal::from_val_with_dyn_ns(value, ns) {
                Ok(val) => val.same(v),
                Err(_) => false,
            },
            _ => self.is_valid(value),
        }
    }
}

} // verus!
