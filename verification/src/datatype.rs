//! The datatypes that a pattern can name: the two built into RELAX NG and
//! those of XML Schema.

use vstd::prelude::*;
use crate::qname::{Namespaces, XsdDatatypeValues};
use crate::text::{normalize_whitespace, normalized, str_eq};
use crate::xsd::{Shape, XsdDatatypes};

verus! {

/// The datatypes of the built-in library.
#[derive(Clone, Copy, PartialEq, Eq, Structural, Debug)]
pub enum BuiltinDatatype {
    String,
    Token,
}

/// A value of a datatype of the built-in library.
#[derive(Debug)]
pub enum BuiltinDatatypeValue {
    /// The text itself.
    StringValue(String),
    /// The text with its white space collapsed.
    TokenValue(String),
}

/// A datatype.
pub enum Datatypes {
    Relax(BuiltinDatatype),
    Xsd(XsdDatatypes),
}

/// A value of a datatype.
#[derive(Debug)]
pub enum DatatypeValues {
    Relax(BuiltinDatatypeValue),
    Xsd(XsdDatatypeValues),
}

/// What a datatype is made of: the built-in type, or the kind and the
/// facets of a type of XML Schema.
pub enum DatatypeForm {
    Relax(BuiltinDatatype),
    Xsd(Shape),
}

/// What a value is made of: its type and its text, for a `QName` the
/// namespace URI and the local name.
pub enum ValueForm {
    RelaxString(Seq<char>),
    RelaxToken(Seq<char>),
    XsdString(Seq<char>),
    XsdToken(Seq<char>),
    QName(Seq<char>, Seq<char>),
}

impl Datatypes {
    /// What the datatype is made of.
    pub open spec fn form(&self) -> DatatypeForm {
        match self {
            Datatypes::Relax(b) => DatatypeForm::Relax(*b),
            Datatypes::Xsd(x) => DatatypeForm::Xsd(x.shape()),
        }
    }

    /// Whether two datatypes are made of the same.
    pub fn same(&self, other: &Datatypes) -> (r: bool)
        ensures
            r == (self.form() == other.form()),
    {
        match (self, other) {
            (Datatypes::Relax(a), Datatypes::Relax(b)) => *a == *b,
            (Datatypes::Xsd(a), Datatypes::Xsd(b)) => a.same(b),
            _ => false,
        }
    }

    pub open spec fn wf(&self) -> bool {
        match self {
            Datatypes::Relax(_) => true,
            Datatypes::Xsd(x) => x.wf(),
        }
    }

    /// Whether `value` is a lexical form of the datatype. Both built-in
    /// types take every text.
    pub open spec fn accepts(&self, value: Seq<char>) -> bool {
        match self {
            Datatypes::Relax(_) => true,
            Datatypes::Xsd(x) => x.accepts(value),
        }
    }

    pub fn is_valid(&self, value: &str) -> (r: bool)
        requires
            self.wf(),
        ensures
            r == self.accepts(value@),
    {
        match self {
            Datatypes::Relax(_) => true,
            Datatypes::Xsd(x) => x.is_valid(value),
        }
    }
}

impl DatatypeValues {
    /// What the value is made of.
    pub open spec fn form(&self) -> ValueForm {
        match self {
            DatatypeValues::Relax(BuiltinDatatypeValue::StringValue(s)) => ValueForm::RelaxString(
                s@,
            ),
            DatatypeValues::Relax(BuiltinDatatypeValue::TokenValue(s)) => ValueForm::RelaxToken(s@),
            DatatypeValues::Xsd(XsdDatatypeValues::String(s)) => ValueForm::XsdString(s@),
            DatatypeValues::Xsd(XsdDatatypeValues::Token(s)) => ValueForm::XsdToken(s@),
            DatatypeValues::Xsd(XsdDatatypeValues::QName(q)) => ValueForm::QName(q.0@, q.1@),
        }
    }

    /// Whether two values are made of the same.
    pub fn same(&self, other: &DatatypeValues) -> (r: bool)
        ensures
            r == (self.form() == other.form()),
    {
        match (self, other) {
            (
                DatatypeValues::Relax(BuiltinDatatypeValue::StringValue(a)),
                DatatypeValues::Relax(BuiltinDatatypeValue::StringValue(b)),
            ) => str_eq(a.as_str(), b.as_str()),
            (
                DatatypeValues::Relax(BuiltinDatatypeValue::TokenValue(a)),
                DatatypeValues::Relax(BuiltinDatatypeValue::TokenValue(b)),
            ) => str_eq(a.as_str(), b.as_str()),
            (
                DatatypeValues::Xsd(XsdDatatypeValues::String(a)),
                DatatypeValues::Xsd(XsdDatatypeValues::String(b)),
            ) => str_eq(a.as_str(), b.as_str()),
            (
                DatatypeValues::Xsd(XsdDatatypeValues::Token(a)),
                DatatypeValues::Xsd(XsdDatatypeValues::Token(b)),
            ) => str_eq(a.as_str(), b.as_str()),
            (
                DatatypeValues::Xsd(XsdDatatypeValues::QName(a)),
                DatatypeValues::Xsd(XsdDatatypeValues::QName(b)),
            ) => a.same(b),
            _ => false,
        }
    }

    /// Whether the text `value` denotes this value where prefixes are bound
    /// as `binding` says.
    pub open spec fn accepts_with(
        &self,
        value: Seq<char>,
        binding: spec_fn(Seq<char>) -> Option<Seq<char>>,
    ) -> bool {
        match self {
            DatatypeValues::Relax(BuiltinDatatypeValue::StringValue(s)) => s@ == value,
            DatatypeValues::Relax(BuiltinDatatypeValue::TokenValue(s)) => s@ == normalized(value),
            DatatypeValues::Xsd(x) => x.accepts_with(value, binding),
        }
    }

    pub fn is_valid_with_ns<N: Namespaces>(&self, value: &str, ns: &N) -> (r: bool)
        ensures
            r == self.accepts_with(value@, |p: Seq<char>| ns.binding(p)),
    {
        match self {
            DatatypeValues::Relax(BuiltinDatatypeValue::StringValue(s)) => str_eq(
                s.as_str(),
                value,
            ),
            DatatypeValues::Relax(BuiltinDatatypeValue::TokenValue(s)) => {
                let n = normalize_whitespace(value);
                str_eq(s.as_str(), n.as_str())
            },
            DatatypeValues::Xsd(x) => x.is_valid_with_ns(value, ns),
        }
    }
}

} // verus!
