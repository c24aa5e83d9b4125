//! From a type name and its parameters to a datatype with facets.

use vstd::prelude::*;
use crate::decimal::{Decimal, Integer, Natural, Real};
use crate::facets::{Bounds, FacetError, FacetValue, Fault, LengthFacet, MinMaxFacet};
use crate::number::{integer_in, parse_u16, parse_usize};
use crate::pattern::{
    anchored, compile_lexical, pattern_wf, raw_of, regex_compiles, Lexical, PatternFacet,
};
use crate::qname::{qname_value, slice_binding, QNameVal, XsdDatatypeValues};
use crate::span::Span;
use crate::text::{normalize_whitespace, normalized, str_eq};
use crate::xsd::{
    lexical_source, machine_kind, read_bound, Shape, StringFacets, XsdDatatypes, XsdKind, BASE64_RE,
    DATETIME_RE, DURATION_RE, GDAY_RE, GMONTHDAY_RE, GMONTH_RE, GYEARMONTH_RE, GYEAR_RE,
    HEXBINARY_RE, LANG_RE, TIME_RE,
};

verus! {

/// A parameter of a datatype: the name of a facet and its value.
#[derive(Debug)]
pub struct Param {
    pub span: Span,
    pub name: String,
    pub value: String,
}

/// The name that a schema gives to a datatype.
#[derive(Debug)]
pub enum DatatypeName {
    /// The built-in `string`.
    String,
    /// The built-in `token`.
    Token,
    /// A prefixed name, with the place and the text of its local part.
    CName { prefix: String, span: Span, name: String },
    /// A name with its namespace URI written out.
    NamespacedName { namespace_uri: String, span: Span, name: String },
}

/// Why a datatype or a value could not be compiled.
#[derive(Debug)]
pub enum XsdDatatypeError {
    Facet { type_label: &'static str, facet: FacetError },
    UnsupportedDatatype { span: Span, name: String },
    InvalidValueOfType { span: Span, type_label: &'static str },
}

/// Why a datatype or a value could not be compiled, without the explanatory
/// text.
pub enum XsdFault {
    Facet(&'static str, Fault),
    Unsupported(Span, Seq<char>),
    InvalidValue(Span, &'static str),
}

impl View for XsdDatatypeError {
    type V = XsdFault;

    open spec fn view(&self) -> XsdFault {
        match self {
            XsdDatatypeError::Facet { type_label, facet } => XsdFault::Facet(type_label, facet@),
            XsdDatatypeError::UnsupportedDatatype { span, name } => XsdFault::Unsupported(
                *span,
                name@,
            ),
            XsdDatatypeError::InvalidValueOfType { span, type_label } => XsdFault::InvalidValue(
                *span,
                type_label,
            ),
        }
    }
}

/// The kinds that take `length`, `minLength` and `maxLength`.
pub open spec fn has_length(kind: XsdKind) -> bool {
    matches!(kind, XsdKind::NormalizedString | XsdKind::String | XsdKind::NmTokens
        | XsdKind::NmToken | XsdKind::NcName | XsdKind::Token | XsdKind::Name | XsdKind::Entity
        | XsdKind::Base64Binary | XsdKind::HexBinary)
}

/// The kinds that take the four bounds.
pub open spec fn has_bounds(kind: XsdKind) -> bool {
    matches!(kind, XsdKind::Short | XsdKind::UnsignedShort | XsdKind::Long | XsdKind::Int
        | XsdKind::UnsignedInt | XsdKind::UnsignedLong | XsdKind::Byte | XsdKind::UnsignedByte
        | XsdKind::Integer | XsdKind::PositiveInteger | XsdKind::NonNegativeInteger
        | XsdKind::NegativeInteger | XsdKind::NonPositiveInteger | XsdKind::Decimal
        | XsdKind::Double | XsdKind::Float)
}

/// The kinds that take `pattern`.
pub open spec fn has_pattern(kind: XsdKind) -> bool {
    matches!(kind, XsdKind::NormalizedString | XsdKind::String | XsdKind::Short
        | XsdKind::UnsignedShort | XsdKind::Long | XsdKind::Int | XsdKind::UnsignedInt
        | XsdKind::UnsignedLong | XsdKind::Byte | XsdKind::UnsignedByte | XsdKind::Integer
        | XsdKind::PositiveInteger | XsdKind::NonNegativeInteger | XsdKind::NegativeInteger
        | XsdKind::NonPositiveInteger | XsdKind::Decimal | XsdKind::Double | XsdKind::Float
        | XsdKind::Duration | XsdKind::Datetime | XsdKind::Language | XsdKind::Time | XsdKind::GYear
        | XsdKind::GYearMonth | XsdKind::GMonth | XsdKind::GMonthDay | XsdKind::GDay | XsdKind::Date
        | XsdKind::AnyURI | XsdKind::Boolean | XsdKind::Id | XsdKind::IdRef)
}

/// The kinds that take `fractionDigits` and `totalDigits`.
pub open spec fn has_digits(kind: XsdKind) -> bool {
    kind is Decimal
}

/// The kind that a type name stands for.
pub open spec fn kind_of(name: Seq<char>) -> Option<XsdKind> {
    if name == "normalizedString"@ {
        Some(XsdKind::NormalizedString)
    } else if name == "string"@ {
        Some(XsdKind::String)
    } else if name == "short"@ {
        Some(XsdKind::Short)
    } else if name == "unsignedShort"@ {
        Some(XsdKind::UnsignedShort)
    } else if name == "long"@ {
        Some(XsdKind::Long)
    } else if name == "int"@ {
        Some(XsdKind::Int)
    } else if name == "integer"@ {
        Some(XsdKind::Integer)
    } else if name == "positiveInteger"@ {
        Some(XsdKind::PositiveInteger)
    } else if name == "unsignedInt"@ {
        Some(XsdKind::UnsignedInt)
    } else if name == "unsignedLong"@ {
        Some(XsdKind::UnsignedLong)
    } else if name == "decimal"@ {
        Some(XsdKind::Decimal)
    } else if name == "double"@ {
        Some(XsdKind::Double)
    } else if name == "NMTOKENS"@ {
        Some(XsdKind::NmTokens)
    } else if name == "NMTOKEN"@ {
        Some(XsdKind::NmToken)
    } else if name == "NCName"@ {
        Some(XsdKind::NcName)
    } else if name == "token"@ {
        Some(XsdKind::Token)
    } else if name == "duration"@ {
        Some(XsdKind::Duration)
    } else if name == "date"@ {
        Some(XsdKind::Date)
    } else if name == "dateTime"@ {
        Some(XsdKind::Datetime)
    } else if name == "anyURI"@ {
        Some(XsdKind::AnyURI)
    } else if name == "language"@ {
        Some(XsdKind::Language)
    } else if name == "boolean"@ {
        Some(XsdKind::Boolean)
    } else if name == "ID"@ {
        Some(XsdKind::Id)
    } else if name == "IDREF"@ {
        Some(XsdKind::IdRef)
    } else if name == "float"@ {
        Some(XsdKind::Float)
    } else if name == "nonNegativeInteger"@ {
        Some(XsdKind::NonNegativeInteger)
    } else if name == "negativeInteger"@ {
        Some(XsdKind::NegativeInteger)
    } else if name == "nonPositiveInteger"@ {
        Some(XsdKind::NonPositiveInteger)
    } else if name == "byte"@ {
        Some(XsdKind::Byte)
    } else if name == "unsignedByte"@ {
        Some(XsdKind::UnsignedByte)
    } else if name == "base64Binary"@ {
        Some(XsdKind::Base64Binary)
    } else if name == "hexBinary"@ {
        Some(XsdKind::HexBinary)
    } else if name == "gYear"@ {
        Some(XsdKind::GYear)
    } else if name == "gYearMonth"@ {
        Some(XsdKind::GYearMonth)
    } else if name == "gMonth"@ {
        Some(XsdKind::GMonth)
    } else if name == "gMonthDay"@ {
        Some(XsdKind::GMonthDay)
    } else if name == "gDay"@ {
        Some(XsdKind::GDay)
    } else if name == "Name"@ {
        Some(XsdKind::Name)
    } else if name == "QName"@ {
        Some(XsdKind::QNameData)
    } else if name == "ENTITY"@ || name == "ENTITIES"@ {
        Some(XsdKind::Entity)
    } else if name == "time"@ {
        Some(XsdKind::Time)
    } else {
        None
    }
}

/// The name under which errors about a kind are reported.
pub open spec fn type_label(kind: XsdKind) -> &'static str {
    match kind {
        XsdKind::NormalizedString => "normalizedString",
        XsdKind::String => "string",
        XsdKind::Short => "short",
        XsdKind::UnsignedShort => "unsignedShort",
        XsdKind::Long => "long",
        XsdKind::Int => "int",
        XsdKind::Integer => "integer",
        XsdKind::PositiveInteger => "positiveInteger",
        XsdKind::UnsignedInt => "unsignedInt",
        XsdKind::UnsignedLong => "unsignedLong",
        XsdKind::Decimal => "decimal",
        XsdKind::Double => "double",
        XsdKind::NmTokens => "NMTOKENS",
        XsdKind::NmToken => "NMTOKEN",
        XsdKind::NcName => "NCName",
        XsdKind::Token => "token",
        XsdKind::Duration => "duration",
        XsdKind::Date => "date",
        XsdKind::Datetime => "dateTime",
        XsdKind::AnyURI => "anyURI",
        XsdKind::Language => "language",
        XsdKind::Boolean => "boolean",
        XsdKind::Id => "ID",
        XsdKind::IdRef => "IDREF",
        XsdKind::Float => "float",
        XsdKind::NonNegativeInteger => "nonNegativeInteger",
        XsdKind::NegativeInteger => "negativeInteger",
        XsdKind::NonPositiveInteger => "nonPositiveInteger",
        XsdKind::Byte => "byte",
        XsdKind::UnsignedByte => "unsignedByte",
        XsdKind::Base64Binary => "base64Binary",
        XsdKind::HexBinary => "hexBinary",
        XsdKind::GYear => "gYear",
        XsdKind::GYearMonth => "gYearMonth",
        XsdKind::GMonth => "gMonth",
        XsdKind::GMonthDay => "gMonthDay",
        XsdKind::GDay => "gDay",
        XsdKind::Name => "Name",
        XsdKind::QNameData => "QName",
        XsdKind::Entity => "ENTITY",
        XsdKind::Time => "time",
    }
}

/// The datatype of a kind without any facet.
pub open spec fn initial(kind: XsdKind) -> Shape {
    Shape {
        kind,
        len: LengthFacet::Unbounded,
        pattern: None,
        bounds: Bounds::unbounded(),
        fraction_digits: None,
        total_digits: None,
    }
}

/// The four bounds that a parameter can set.
pub enum Side {
    MinInclusive,
    MinExclusive,
    MaxInclusive,
    MaxExclusive,
}

/// The shape with one more restriction on its length: the value of the
/// parameter has to be a number, and the restriction must not conflict.
pub open spec fn with_length(shape: Shape, p: Param, facet: spec_fn(usize) -> LengthFacet) -> Result<
    Shape,
    Fault,
> {
    match integer_in(p.value@, false, 0, usize::MAX as int) {
        None => Err(Fault::BadNumber(p.span, p.value@)),
        Some(n) => match shape.len.merged(facet(n as usize)) {
            Ok(len) => Ok(Shape { len, ..shape }),
            Err(why) => Err(Fault::Conflict(why)),
        },
    }
}

/// The shape with one more bound: the value of the parameter has to be a
/// number of the kind, and the bound must not conflict.
pub open spec fn with_bound(shape: Shape, p: Param, side: Side) -> Result<Shape, Fault> {
    match read_bound(shape.kind, p.value@) {
        None => if shape.kind is Double || shape.kind is Float {
            Err(Fault::BadFloat(p.span, p.value@))
        } else {
            Err(Fault::BadNumber(p.span, p.value@))
        },
        Some(v) => match (match side {
            Side::MinInclusive => shape.bounds.with_min_inclusive(v),
            Side::MinExclusive => shape.bounds.with_min_exclusive(v),
            Side::MaxInclusive => shape.bounds.with_max_inclusive(v),
            Side::MaxExclusive => shape.bounds.with_max_exclusive(v),
        }) {
            Ok(bounds) => Ok(Shape { bounds, ..shape }),
            Err(why) => Err(Fault::Conflict(why)),
        },
    }
}

/// The shape after one more parameter. A facet that the kind does not have
/// is refused; `QName` has none, and reports that at the place of the type.
pub open spec fn apply_param(shape: Shape, type_span: Span, p: Param) -> Result<Shape, Fault> {
    let name = p.name@;
    let kind = shape.kind;
    if kind is QNameData {
        Err(Fault::BadFacet(type_span, "QName data type does not support facets"@))
    } else if has_length(kind) && name == "length"@ {
        with_length(shape, p, |n: usize| LengthFacet::Length(n))
    } else if has_length(kind) && name == "minLength"@ {
        with_length(shape, p, |n: usize| LengthFacet::MinLength(n))
    } else if has_length(kind) && name == "maxLength"@ {
        with_length(shape, p, |n: usize| LengthFacet::MaxLength(n))
    } else if has_bounds(kind) && name == "minInclusive"@ {
        with_bound(shape, p, Side::MinInclusive)
    } else if has_bounds(kind) && name == "minExclusive"@ {
        with_bound(shape, p, Side::MinExclusive)
    } else if has_bounds(kind) && name == "maxInclusive"@ {
        with_bound(shape, p, Side::MaxInclusive)
    } else if has_bounds(kind) && name == "maxExclusive"@ {
        with_bound(shape, p, Side::MaxExclusive)
    } else if has_pattern(kind) && name == "pattern"@ {
        if regex_compiles(anchored(p.value@)) {
            Ok(Shape { pattern: Some(p.value@), ..shape })
        } else {
            Err(Fault::BadPattern(p.span))
        }
    } else if has_digits(kind) && name == "fractionDigits"@ {
        match integer_in(p.value@, false, 0, u16::MAX as int) {
            Some(n) => Ok(Shape { fraction_digits: Some(n as u16), ..shape }),
            None => Err(Fault::BadNumber(p.span, p.value@)),
        }
    } else if has_digits(kind) && name == "totalDigits"@ {
        match integer_in(p.value@, false, 0, u16::MAX as int) {
            Some(n) => Ok(Shape { total_digits: Some(n as u16), ..shape }),
            None => Err(Fault::BadNumber(p.span, p.value@)),
        }
    } else {
        Err(Fault::BadFacet(p.span, name))
    }
}

/// The shape after the first `n` parameters, or the first fault among them.
pub open spec fn fold(kind: XsdKind, type_span: Span, params: Seq<Param>, n: int) -> Result<
    Shape,
    Fault,
>
    decreases n,
{
    if n <= 0 {
        Ok(initial(kind))
    } else {
        match fold(kind, type_span, params, n - 1) {
            Ok(shape) => apply_param(shape, type_span, params[n - 1]),
            Err(fault) => Err(fault),
        }
    }
}

/// What compiling a type of the given kind with `params` gives: a lexical
/// form that does not compile is refused, then the first fault among the
/// parameters.
pub open spec fn compiled_kind(kind: XsdKind, span: Span, params: Seq<Param>) -> Result<
    Shape,
    XsdFault,
> {
    if lexical_source(kind) matches Some(source) && !regex_compiles(source@) {
        Err(XsdFault::Facet(type_label(kind), Fault::BadPattern(span)))
    } else {
        match fold(kind, span, params, params.len() as int) {
            Ok(shape) => Ok(shape),
            Err(fault) => Err(XsdFault::Facet(type_label(kind), fault)),
        }
    }
}

/// What compiling the type `name` with `params` gives: an unknown name is
/// refused, a known one is compiled as its kind.
pub open spec fn compiled(span: Span, name: Seq<char>, params: Seq<Param>) -> Result<
    Shape,
    XsdFault,
> {
    match kind_of(name) {
        None => Err(XsdFault::Unsupported(span, name)),
        Some(kind) => compiled_kind(kind, span, params),
    }
}

/// The compiled datatype `r` is what `expected` says.
pub open spec fn datatype_result(
    r: Result<XsdDatatypes, XsdDatatypeError>,
    expected: Result<Shape, XsdFault>,
) -> bool {
    match r {
        Ok(dt) => dt.wf() && expected == Ok::<Shape, XsdFault>(dt.shape()),
        Err(e) => expected == Err::<Shape, XsdFault>(e@),
    }
}

/// What compiling the value `value` of the type `name` gives, where `ns`
/// binds the prefixes.
pub open spec fn compiled_value(
    span: Span,
    name: Seq<char>,
    value: Seq<char>,
    ns: Seq<(String, String)>,
) -> Result<(XsdKind, Seq<char>, Seq<char>), XsdFault> {
    if name == "string"@ {
        Ok((XsdKind::String, Seq::empty(), value))
    } else if name == "token"@ {
        Ok((XsdKind::Token, Seq::empty(), normalized(value)))
    } else if name == "QName"@ {
        match qname_value(value, |p: Seq<char>| slice_binding(ns, p)) {
            Some((uri, local)) => Ok((XsdKind::QNameData, uri, local)),
            None => Err(XsdFault::InvalidValue(span, "QName")),
        }
    } else {
        Err(XsdFault::Unsupported(span, name))
    }
}

/// The facets that the parameters of a type set.
pub struct Facets<T: FacetValue> {
    pub len: LengthFacet,
    pub pattern: Option<PatternFacet>,
    pub min_max: MinMaxFacet<T>,
    pub fraction_digits: Option<u16>,
    pub total_digits: Option<u16>,
}

impl<T: FacetValue> Facets<T> {
    pub open spec fn wf(&self) -> bool {
        pattern_wf(self.pattern) && self.min_max.wf()
    }

    pub open spec fn shape(&self, kind: XsdKind) -> Shape {
        Shape {
            kind,
            len: self.len,
            pattern: raw_of(self.pattern),
            bounds: self.min_max@,
            fraction_digits: self.fraction_digits,
            total_digits: self.total_digits,
        }
    }
}

fn kind_has_length(kind: XsdKind) -> (r: bool)
    ensures
        r == has_length(kind),
{
    matches!(kind, XsdKind::NormalizedString | XsdKind::String | XsdKind::NmTokens
        | XsdKind::NmToken | XsdKind::NcName | XsdKind::Token | XsdKind::Name | XsdKind::Entity
        | XsdKind::Base64Binary | XsdKind::HexBinary)
}

fn kind_has_bounds(kind: XsdKind) -> (r: bool)
    ensures
        r == has_bounds(kind),
{
    matches!(kind, XsdKind::Short | XsdKind::UnsignedShort | XsdKind::Long | XsdKind::Int
        | XsdKind::UnsignedInt | XsdKind::UnsignedLong | XsdKind::Byte | XsdKind::UnsignedByte
        | XsdKind::Integer | XsdKind::PositiveInteger | XsdKind::NonNegativeInteger
        | XsdKind::NegativeInteger | XsdKind::NonPositiveInteger | XsdKind::Decimal
        | XsdKind::Double | XsdKind::Float)
}

fn kind_has_pattern(kind: XsdKind) -> (r: bool)
    ensures
        r == has_pattern(kind),
{
    matches!(kind, XsdKind::NormalizedString | XsdKind::String | XsdKind::Short
        | XsdKind::UnsignedShort | XsdKind::Long | XsdKind::Int | XsdKind::UnsignedInt
        | XsdKind::UnsignedLong | XsdKind::Byte | XsdKind::UnsignedByte | XsdKind::Integer
        | XsdKind::PositiveInteger | XsdKind::NonNegativeInteger | XsdKind::NegativeInteger
        | XsdKind::NonPositiveInteger | XsdKind::Decimal | XsdKind::Double | XsdKind::Float
        | XsdKind::Duration | XsdKind::Datetime | XsdKind::Language | XsdKind::Time | XsdKind::GYear
        | XsdKind::GYearMonth | XsdKind::GMonth | XsdKind::GMonthDay | XsdKind::GDay | XsdKind::Date
        | XsdKind::AnyURI | XsdKind::Boolean | XsdKind::Id | XsdKind::IdRef)
}

/// The kind that a type name stands for.
pub fn kind_for(name: &str) -> (r: Option<XsdKind>)
    ensures
        r == kind_of(name@),
{
    if str_eq(name, "normalizedString") {
        Some(XsdKind::NormalizedString)
    } else if str_eq(name, "string") {
        Some(XsdKind::String)
    } else if str_eq(name, "short") {
        Some(XsdKind::Short)
    } else if str_eq(name, "unsignedShort") {
        Some(XsdKind::UnsignedShort)
    } else if str_eq(name, "long") {
        Some(XsdKind::Long)
    } else if str_eq(name, "int") {
        Some(XsdKind::Int)
    } else if str_eq(name, "integer") {
        Some(XsdKind::Integer)
    } else if str_eq(name, "positiveInteger") {
        Some(XsdKind::PositiveInteger)
    } else if str_eq(name, "unsignedInt") {
        Some(XsdKind::UnsignedInt)
    } else if str_eq(name, "unsignedLong") {
        Some(XsdKind::UnsignedLong)
    } else if str_eq(name, "decimal") {
        Some(XsdKind::Decimal)
    } else if str_eq(name, "double") {
        Some(XsdKind::Double)
    } else if str_eq(name, "NMTOKENS") {
        Some(XsdKind::NmTokens)
    } else if str_eq(name, "NMTOKEN") {
        Some(XsdKind::NmToken)
    } else if str_eq(name, "NCName") {
        Some(XsdKind::NcName)
    } else if str_eq(name, "token") {
        Some(XsdKind::Token)
    } else if str_eq(name, "duration") {
        Some(XsdKind::Duration)
    } else if str_eq(name, "date") {
        Some(XsdKind::Date)
    } else if str_eq(name, "dateTime") {
        Some(XsdKind::Datetime)
    } else if str_eq(name, "anyURI") {
        Some(XsdKind::AnyURI)
    } else if str_eq(name, "language") {
        Some(XsdKind::Language)
    } else if str_eq(name, "boolean") {
        Some(XsdKind::Boolean)
    } else if str_eq(name, "ID") {
        Some(XsdKind::Id)
    } else if str_eq(name, "IDREF") {
        Some(XsdKind::IdRef)
    } else if str_eq(name, "float") {
        Some(XsdKind::Float)
    } else if str_eq(name, "nonNegativeInteger") {
        Some(XsdKind::NonNegativeInteger)
    } else if str_eq(name, "negativeInteger") {
        Some(XsdKind::NegativeInteger)
    } else if str_eq(name, "nonPositiveInteger") {
        Some(XsdKind::NonPositiveInteger)
    } else if str_eq(name, "byte") {
        Some(XsdKind::Byte)
    } else if str_eq(name, "unsignedByte") {
        Some(XsdKind::UnsignedByte)
    } else if str_eq(name, "base64Binary") {
        Some(XsdKind::Base64Binary)
    } else if str_eq(name, "hexBinary") {
        Some(XsdKind::HexBinary)
    } else if str_eq(name, "gYear") {
        Some(XsdKind::GYear)
    } else if str_eq(name, "gYearMonth") {
        Some(XsdKind::GYearMonth)
    } else if str_eq(name, "gMonth") {
        Some(XsdKind::GMonth)
    } else if str_eq(name, "gMonthDay") {
        Some(XsdKind::GMonthDay)
    } else if str_eq(name, "gDay") {
        Some(XsdKind::GDay)
    } else if str_eq(name, "Name") {
        Some(XsdKind::Name)
    } else if str_eq(name, "QName") {
        Some(XsdKind::QNameData)
    } else if str_eq(name, "ENTITY") || str_eq(name, "ENTITIES") {
        Some(XsdKind::Entity)
    } else if str_eq(name, "time") {
        Some(XsdKind::Time)
    } else {
        None
    }
}

/// The name under which errors about a kind are reported.
pub fn label_for(kind: XsdKind) -> (r: &'static str)
    ensures
        r == type_label(kind),
{
    match kind {
        XsdKind::NormalizedString => "normalizedString",
        XsdKind::String => "string",
        XsdKind::Short => "short",
        XsdKind::UnsignedShort => "unsignedShort",
        XsdKind::Long => "long",
        XsdKind::Int => "int",
        XsdKind::Integer => "integer",
        XsdKind::PositiveInteger => "positiveInteger",
        XsdKind::UnsignedInt => "unsignedInt",
        XsdKind::UnsignedLong => "unsignedLong",
        XsdKind::Decimal => "decimal",
        XsdKind::Double => "double",
        XsdKind::NmTokens => "NMTOKENS",
        XsdKind::NmToken => "NMTOKEN",
        XsdKind::NcName => "NCName",
        XsdKind::Token => "token",
        XsdKind::Duration => "duration",
        XsdKind::Date => "date",
        XsdKind::Datetime => "dateTime",
        XsdKind::AnyURI => "anyURI",
        XsdKind::Language => "language",
        XsdKind::Boolean => "boolean",
        XsdKind::Id => "ID",
        XsdKind::IdRef => "IDREF",
        XsdKind::Float => "float",
        XsdKind::NonNegativeInteger => "nonNegativeInteger",
        XsdKind::NegativeInteger => "negativeInteger",
        XsdKind::NonPositiveInteger => "nonPositiveInteger",
        XsdKind::Byte => "byte",
        XsdKind::UnsignedByte => "unsignedByte",
        XsdKind::Base64Binary => "base64Binary",
        XsdKind::HexBinary => "hexBinary",
        XsdKind::GYear => "gYear",
        XsdKind::GYearMonth => "gYearMonth",
        XsdKind::GMonth => "gMonth",
        XsdKind::GMonthDay => "gMonthDay",
        XsdKind::GDay => "gDay",
        XsdKind::Name => "Name",
        XsdKind::QNameData => "QName",
        XsdKind::Entity => "ENTITY",
        XsdKind::Time => "time",
    }
}

/// The regular expression that gives the lexical form of a kind.
pub fn lexical_source_of(kind: XsdKind) -> (r: Option<&'static str>)
    ensures
        r == lexical_source(kind),
{
    match kind {
        XsdKind::Language => Some(LANG_RE),
        XsdKind::Datetime => Some(DATETIME_RE),
        XsdKind::Duration => Some(DURATION_RE),
        XsdKind::Time => Some(TIME_RE),
        XsdKind::GYear => Some(GYEAR_RE),
        XsdKind::GYearMonth => Some(GYEARMONTH_RE),
        XsdKind::GMonth => Some(GMONTH_RE),
        XsdKind::GMonthDay => Some(GMONTHDAY_RE),
        XsdKind::GDay => Some(GDAY_RE),
        XsdKind::Base64Binary => Some(BASE64_RE),
        XsdKind::HexBinary => Some(HEXBINARY_RE),
        _ => None,
    }
}

fn length_param(len: &mut LengthFacet, p: &Param, facet: LengthFacet) -> (r: Result<(), FacetError>)
    ensures
        match r {
            Ok(()) => old(len).merged(facet) == Ok::<LengthFacet, &'static str>(*final(len)),
            Err(e) => old(len).merged(facet) matches Err(why) && e@ == Fault::Conflict(why),
        },
{
    len.merge(facet)
}

fn bound_param<T: FacetValue>(min_max: &mut MinMaxFacet<T>, kind: XsdKind, p: &Param, side: Side) -> (r:
    Result<(), FacetError>)
    requires
        old(min_max).wf(),
    ensures
        final(min_max).wf(),
        match r {
            Ok(()) => T::read(p.value@) matches Some(v) && (match side {
                Side::MinInclusive => old(min_max)@.with_min_inclusive(v),
                Side::MinExclusive => old(min_max)@.with_min_exclusive(v),
                Side::MaxInclusive => old(min_max)@.with_max_inclusive(v),
                Side::MaxExclusive => old(min_max)@.with_max_exclusive(v),
            }) == Ok::<Bounds, &'static str>(final(min_max)@),
            Err(e) => match T::read(p.value@) {
                None => e@ == (if kind is Double || kind is Float {
                    Fault::BadFloat(p.span, p.value@)
                } else {
                    Fault::BadNumber(p.span, p.value@)
                }),
                Some(v) => (match side {
                    Side::MinInclusive => old(min_max)@.with_min_inclusive(v),
                    Side::MinExclusive => old(min_max)@.with_min_exclusive(v),
                    Side::MaxInclusive => old(min_max)@.with_max_inclusive(v),
                    Side::MaxExclusive => old(min_max)@.with_max_exclusive(v),
                }) matches Err(why) && e@ == Fault::Conflict(why),
            },
        },
{
    match T::parse(p.value.as_str()) {
        None => if matches!(kind, XsdKind::Double | XsdKind::Float) {
            Err(FacetError::InvalidFloat(p.span, p.value.clone()))
        } else {
            Err(FacetError::InvalidInt(p.span, p.value.clone()))
        },
        Some(v) => match side {
            Side::MinInclusive => min_max.min_inclusive(v),
            Side::MinExclusive => min_max.min_exclusive(v),
            Side::MaxInclusive => min_max.max_inclusive(v),
            Side::MaxExclusive => min_max.max_exclusive(v),
        },
    }
}

/// Applies one parameter to the facets collected so far.
fn apply<T: FacetValue>(f: &mut Facets<T>, kind: XsdKind, type_span: Span, p: &Param) -> (r: Result<
    (),
    FacetError,
>)
    requires
        old(f).wf(),
        has_bounds(kind) ==> forall|t: Seq<char>| #[trigger] T::read(t) == read_bound(kind, t),
    ensures
        final(f).wf(),
        match r {
            Ok(()) => apply_param(old(f).shape(kind), type_span, *p) == Ok::<Shape, Fault>(
                final(f).shape(kind),
            ),
            Err(e) => apply_param(old(f).shape(kind), type_span, *p) == Err::<Shape, Fault>(e@),
        },
{
    let name = p.name.as_str();
    let lengthy = kind_has_length(kind);
    let bounded = kind_has_bounds(kind);
    if matches!(kind, XsdKind::QNameData) {
        Err(
            FacetError::InvalidFacet(
                type_span,
                "QName data type does not support facets".to_owned(),
            ),
        )
    } else if lengthy && (str_eq(name, "length") || str_eq(name, "minLength") || str_eq(
        name,
        "maxLength",
    )) {
        match parse_usize(p.value.as_str()) {
            None => Err(FacetError::InvalidInt(p.span, p.value.clone())),
            Some(n) => {
                let facet = if str_eq(name, "length") {
                    LengthFacet::Length(n)
                } else if str_eq(name, "minLength") {
                    LengthFacet::MinLength(n)
                } else {
                    LengthFacet::MaxLength(n)
                };
                length_param(&mut f.len, p, facet)
            },
        }
    } else if bounded && str_eq(name, "minInclusive") {
        bound_param(&mut f.min_max, kind, p, Side::MinInclusive)
    } else if bounded && str_eq(name, "minExclusive") {
        bound_param(&mut f.min_max, kind, p, Side::MinExclusive)
    } else if bounded && str_eq(name, "maxInclusive") {
        bound_param(&mut f.min_max, kind, p, Side::MaxInclusive)
    } else if bounded && str_eq(name, "maxExclusive") {
        bound_param(&mut f.min_max, kind, p, Side::MaxExclusive)
    } else if kind_has_pattern(kind) && str_eq(name, "pattern") {
        match PatternFacet::new(p.value.as_str()) {
            Ok(pattern) => {
                f.pattern = Some(pattern);
                Ok(())
            },
            Err(why) => Err(FacetError::InvalidPattern(p.span, why)),
        }
    } else if matches!(kind, XsdKind::Decimal) && str_eq(name, "fractionDigits") {
        match parse_u16(p.value.as_str()) {
            Some(n) => {
                f.fraction_digits = Some(n);
                Ok(())
            },
            None => Err(FacetError::InvalidInt(p.span, p.value.clone())),
        }
    } else if matches!(kind, XsdKind::Decimal) && str_eq(name, "totalDigits") {
        match parse_u16(p.value.as_str()) {
            Some(n) => {
                f.total_digits = Some(n);
                Ok(())
            },
            None => Err(FacetError::InvalidInt(p.span, p.value.clone())),
        }
    } else {
        Err(FacetError::InvalidFacet(p.span, p.name.clone()))
    }
}

/// The facets that `params` set on a type of the given kind.
pub fn collect<T: FacetValue>(kind: XsdKind, type_span: Span, params: &[Param]) -> (r: Result<
    Facets<T>,
    FacetError,
>)
    requires
        has_bounds(kind) ==> forall|t: Seq<char>| #[trigger] T::read(t) == read_bound(kind, t),
    ensures
        match r {
            Ok(f) => f.wf() && fold(kind, type_span, params@, params@.len() as int) == Ok::<
                Shape,
                Fault,
            >(f.shape(kind)),
            Err(e) => fold(kind, type_span, params@, params@.len() as int) == Err::<Shape, Fault>(
                e@,
            ),
        },
{
    let mut f: Facets<T> = Facets {
        len: LengthFacet::Unbounded,
        pattern: None,
        min_max: MinMaxFacet::default(),
        fraction_digits: None,
        total_digits: None,
    };
    let mut i: usize = 0;
    while i < params.len()
        invariant
            i <= params.len(),
            f.wf(),
            has_bounds(kind) ==> forall|t: Seq<char>| #[trigger] T::read(t) == read_bound(kind, t),
            fold(kind, type_span, params@, i as int) == Ok::<Shape, Fault>(f.shape(kind)),
        decreases params.len() - i,
    {
        match apply(&mut f, kind, type_span, &params[i]) {
            Ok(()) => {},
            Err(e) => {
                proof {
                    lemma_fold_fault(kind, type_span, params@, i + 1, params@.len() as int);
                }
                return Err(e);
            },
        }
        i += 1;
    }
    Ok(f)
}

/// A fault among the first `n` parameters is the result for any longer
/// prefix.
pub proof fn lemma_fold_fault(kind: XsdKind, type_span: Span, params: Seq<Param>, n: int, m: int)
    requires
        n <= m,
        fold(kind, type_span, params, n) is Err,
    ensures
        fold(kind, type_span, params, m) == fold(kind, type_span, params, n),
    decreases m - n,
{
    if n < m {
        lemma_fold_fault(kind, type_span, params, n, m - 1);
    }
}

/// The lexical form and the facets of a type whose kind has a lexical form.
fn gather_lexical<T: FacetValue>(kind: XsdKind, span: Span, params: &[Param]) -> (r: Result<
    (Lexical, Facets<T>),
    XsdDatatypeError,
>)
    requires
        lexical_source(kind) is Some,
        has_bounds(kind) ==> forall|t: Seq<char>| #[trigger] T::read(t) == read_bound(kind, t),
    ensures
        match r {
            Ok((l, f)) => f.wf() && l.source() == lexical_source(kind)->0@ && regex_compiles(
                lexical_source(kind)->0@,
            ) && fold(kind, span, params@, params@.len() as int) == Ok::<Shape, Fault>(
                f.shape(kind),
            ),
            Err(e) => e@ == (if !regex_compiles(lexical_source(kind)->0@) {
                XsdFault::Facet(type_label(kind), Fault::BadPattern(span))
            } else {
                XsdFault::Facet(
                    type_label(kind),
                    fold(kind, span, params@, params@.len() as int)->Err_0,
                )
            }) && (regex_compiles(lexical_source(kind)->0@) ==> fold(
                kind,
                span,
                params@,
                params@.len() as int,
            ) is Err),
        },
{
    let source = match lexical_source_of(kind) {
        Some(s) => s,
        None => "",
    };
    let lexical = match compile_lexical(source) {
        Ok(l) => l,
        Err(why) => {
            return Err(
                XsdDatatypeError::Facet {
                    type_label: label_for(kind),
                    facet: FacetError::InvalidPattern(span, why),
                },
            );
        },
    };
    match collect::<T>(kind, span, params) {
        Ok(f) => Ok((lexical, f)),
        Err(facet) => Err(XsdDatatypeError::Facet { type_label: label_for(kind), facet }),
    }
}

/// The facets of a type whose kind has no lexical form of its own.
fn gather<T: FacetValue>(kind: XsdKind, span: Span, params: &[Param]) -> (r: Result<
    Facets<T>,
    XsdDatatypeError,
>)
    requires
        lexical_source(kind) is None,
        has_bounds(kind) ==> forall|t: Seq<char>| #[trigger] T::read(t) == read_bound(kind, t),
    ensures
        match r {
            Ok(f) => f.wf() && fold(kind, span, params@, params@.len() as int) == Ok::<
                Shape,
                Fault,
            >(f.shape(kind)),
            Err(e) => fold(kind, span, params@, params@.len() as int) matches Err(fault) && e@
                == XsdFault::Facet(type_label(kind), fault),
        },
{
    match collect::<T>(kind, span, params) {
        Ok(f) => Ok(f),
        Err(facet) => Err(XsdDatatypeError::Facet { type_label: label_for(kind), facet }),
    }
}

/// What does not belong to a kind stays unset.
pub proof fn lemma_fold_keeps(kind: XsdKind, type_span: Span, params: Seq<Param>, n: int)
    ensures
        fold(kind, type_span, params, n) is Ok ==> ({
            let s = fold(kind, type_span, params, n)->Ok_0;
            &&& s.kind == kind
            &&& !has_length(kind) ==> s.len is Unbounded
            &&& !has_pattern(kind) ==> s.pattern is None
            &&& !has_bounds(kind) ==> s.bounds == Bounds::unbounded()
            &&& !has_digits(kind) ==> s.fraction_digits is None && s.total_digits is None
        }),
    decreases n,
{
    if n > 0 {
        lemma_fold_keeps(kind, type_span, params, n - 1);
    }
}

/// Compiles the datatypes of XML Schema.
#[derive(Default)]
pub struct Compiler;

impl Compiler {
    /// The datatype that the prefixed name `datatype_name` stands for, with
    /// the facets that `params` set.
    pub fn datatype_name(&self, datatype_name: &DatatypeName, params: &[Param]) -> (r: Result<
        XsdDatatypes,
        XsdDatatypeError,
    >)
        requires
            datatype_name is CName,
        ensures
            match r {
                Ok(dt) => dt.wf() && compiled(
                    datatype_name->CName_span,
                    datatype_name->CName_name@,
                    params@,
                ) == Ok::<Shape, XsdFault>(dt.shape()),
                Err(e) => compiled(datatype_name->CName_span, datatype_name->CName_name@, params@)
                    == Err::<Shape, XsdFault>(e@),
            },
    {
        match datatype_name {
            DatatypeName::CName { prefix: _, span, name } => self.compile(
                span,
                name.as_str(),
                params,
            ),
            _ => Err(
                XsdDatatypeError::UnsupportedDatatype { span: Span::new(0, 0), name: String::new() },
            ),
        }
    }

    /// The value `value` of the type that the prefixed name `datatype_name`
    /// stands for.
    pub fn datatype_value(
        &self,
        datatype_name: &DatatypeName,
        value: &str,
        ns: &[(String, String)],
    ) -> (r: Result<XsdDatatypeValues, XsdDatatypeError>)
        requires
            datatype_name is CName,
        ensures
            value_result(
                r,
                compiled_value(
                    datatype_name->CName_span,
                    datatype_name->CName_name@,
                    value@,
                    ns@,
                ),
            ),
    {
        match datatype_name {
            DatatypeName::CName { prefix: _, span, name } => self.compile_value(
                span,
                name.as_str(),
                value,
                ns,
            ),
            _ => Err(
                XsdDatatypeError::UnsupportedDatatype { span: Span::new(0, 0), name: String::new() },
            ),
        }
    }

    /// The value `value` of the type `name`.
    pub fn compile_value(&self, span: &Span, name: &str, value: &str, ns: &[(String, String)]) -> (r:
        Result<XsdDatatypeValues, XsdDatatypeError>)
        ensures
            value_result(r, compiled_value(*span, name@, value@, ns@)),
    {
        if str_eq(name, "string") {
            Ok(XsdDatatypeValues::String(value.to_owned()))
        } else if str_eq(name, "token") {
            Ok(XsdDatatypeValues::Token(normalize_whitespace(value)))
        } else if str_eq(name, "QName") {
            match QNameVal::from_val_with_ns_slice(value, ns) {
                Ok(q) => Ok(XsdDatatypeValues::QName(q)),
                Err(_) => Err(
                    XsdDatatypeError::InvalidValueOfType { span: *span, type_label: "QName" },
                ),
            }
        } else {
            Err(XsdDatatypeError::UnsupportedDatatype { span: *span, name: name.to_owned() })
        }
    }

    /// The datatype `name` with the facets that `params` set.
    pub fn compile(&self, span: &Span, name: &str, params: &[Param]) -> (r: Result<
        XsdDatatypes,
        XsdDatatypeError,
    >)
        ensures
            datatype_result(r, compiled(*span, name@, params@)),
    {
        let kind = match kind_for(name) {
            Some(kind) => kind,
            None => {
                return Err(
                    XsdDatatypeError::UnsupportedDatatype { span: *span, name: name.to_owned() },
                );
            },
        };
        if is_machine_integer(kind) {
            compile_machine_integer(kind, *span, params)
        } else if kind_has_bounds(kind) {
            compile_unbounded_number(kind, *span, params)
        } else if lexical_source_of(kind).is_some() {
            compile_with_lexical(kind, *span, params)
        } else if kind_has_pattern(kind) {
            compile_with_pattern(kind, *span, params)
        } else {
            compile_with_length(kind, *span, params)
        }
    }
}

fn is_machine_integer(kind: XsdKind) -> (r: bool)
    ensures
        r == machine_kind(kind),
{
    matches!(kind, XsdKind::Short | XsdKind::UnsignedShort | XsdKind::Long | XsdKind::Int
        | XsdKind::UnsignedInt | XsdKind::UnsignedLong | XsdKind::Byte | XsdKind::UnsignedByte)
}

#[verifier::rlimit(40)]
fn compile_machine_integer(kind: XsdKind, span: Span, params: &[Param]) -> (r: Result<
    XsdDatatypes,
    XsdDatatypeError,
>)
    requires
        machine_kind(kind),
    ensures
        datatype_result(r, compiled_kind(kind, span, params@)),
{
    proof {
        lemma_fold_keeps(kind, span, params@, params@.len() as int);
    }
    match kind {
        XsdKind::Short => {
            let f = gather::<i16>(kind, span, params)?;
            Ok(XsdDatatypes::Short(f.min_max, f.pattern))
        },
        XsdKind::UnsignedShort => {
            let f = gather::<u16>(kind, span, params)?;
            Ok(XsdDatatypes::UnsignedShort(f.min_max, f.pattern))
        },
        XsdKind::Long => {
            let f = gather::<i64>(kind, span, params)?;
            Ok(XsdDatatypes::Long(f.min_max, f.pattern))
        },
        XsdKind::Int => {
            let f = gather::<i32>(kind, span, params)?;
            Ok(XsdDatatypes::Int(f.min_max, f.pattern))
        },
        XsdKind::UnsignedInt => {
            let f = gather::<u32>(kind, span, params)?;
            Ok(XsdDatatypes::UnsignedInt(f.min_max, f.pattern))
        },
        XsdKind::UnsignedLong => {
            let f = gather::<u64>(kind, span, params)?;
            Ok(XsdDatatypes::UnsignedLong(f.min_max, f.pattern))
        },
        XsdKind::Byte => {
            let f = gather::<i8>(kind, span, params)?;
            Ok(XsdDatatypes::Byte(f.min_max, f.pattern))
        },
        _ => {
            let f = gather::<u8>(kind, span, params)?;
            Ok(XsdDatatypes::UnsignedByte(f.min_max, f.pattern))
        },
    }
}

#[verifier::rlimit(40)]
fn compile_unbounded_number(kind: XsdKind, span: Span, params: &[Param]) -> (r: Result<
    XsdDatatypes,
    XsdDatatypeError,
>)
    requires
        has_bounds(kind),
        !machine_kind(kind),
    ensures
        datatype_result(r, compiled_kind(kind, span, params@)),
{
    proof {
        lemma_fold_keeps(kind, span, params@, params@.len() as int);
    }
    match kind {
        XsdKind::Integer => {
            let f = gather::<Integer>(kind, span, params)?;
            Ok(XsdDatatypes::Integer(f.min_max, f.pattern))
        },
        XsdKind::PositiveInteger => {
            let f = gather::<Natural>(kind, span, params)?;
            Ok(XsdDatatypes::PositiveInteger(f.min_max, f.pattern))
        },
        XsdKind::NonNegativeInteger => {
            let f = gather::<Natural>(kind, span, params)?;
            Ok(XsdDatatypes::NonNegativeInteger(f.min_max, f.pattern))
        },
        XsdKind::NegativeInteger => {
            let f = gather::<Integer>(kind, span, params)?;
            Ok(XsdDatatypes::NegativeInteger(f.min_max, f.pattern))
        },
        XsdKind::NonPositiveInteger => {
            let f = gather::<Integer>(kind, span, params)?;
            Ok(XsdDatatypes::NonPositiveInteger(f.min_max, f.pattern))
        },
        XsdKind::Decimal => {
            let f = gather::<Decimal>(kind, span, params)?;
            Ok(
                XsdDatatypes::Decimal {
                    min_max: f.min_max,
                    pattern: f.pattern,
                    fraction_digits: f.fraction_digits,
                    total_digits: f.total_digits,
                },
            )
        },
        XsdKind::Double => {
            let f = gather::<Real>(kind, span, params)?;
            Ok(XsdDatatypes::Double(f.min_max, f.pattern))
        },
        _ => {
            let f = gather::<Real>(kind, span, params)?;
            Ok(XsdDatatypes::Float(f.min_max, f.pattern))
        },
    }
}

#[verifier::rlimit(40)]
fn compile_with_lexical(kind: XsdKind, span: Span, params: &[Param]) -> (r: Result<
    XsdDatatypes,
    XsdDatatypeError,
>)
    requires
        lexical_source(kind) is Some,
    ensures
        datatype_result(r, compiled_kind(kind, span, params@)),
{
    proof {
        lemma_fold_keeps(kind, span, params@, params@.len() as int);
    }
    let (lexical, f) = gather_lexical::<u8>(kind, span, params)?;
    match kind {
        XsdKind::Duration => Ok(XsdDatatypes::Duration(lexical, f.pattern)),
        XsdKind::Datetime => Ok(XsdDatatypes::Datetime(lexical, f.pattern)),
        XsdKind::Language => Ok(XsdDatatypes::Language(lexical, f.pattern)),
        XsdKind::Time => Ok(XsdDatatypes::Time(lexical, f.pattern)),
        XsdKind::GYear => Ok(XsdDatatypes::GYear(lexical, f.pattern)),
        XsdKind::GYearMonth => Ok(XsdDatatypes::GYearMonth(lexical, f.pattern)),
        XsdKind::GMonth => Ok(XsdDatatypes::GMonth(lexical, f.pattern)),
        XsdKind::GMonthDay => Ok(XsdDatatypes::GMonthDay(lexical, f.pattern)),
        XsdKind::GDay => Ok(XsdDatatypes::GDay(lexical, f.pattern)),
        XsdKind::Base64Binary => Ok(XsdDatatypes::Base64Binary(lexical, f.len)),
        _ => Ok(XsdDatatypes::HexBinary(lexical, f.len)),
    }
}

#[verifier::rlimit(40)]
fn compile_with_pattern(kind: XsdKind, span: Span, params: &[Param]) -> (r: Result<
    XsdDatatypes,
    XsdDatatypeError,
>)
    requires
        has_pattern(kind),
        !has_bounds(kind),
        lexical_source(kind) is None,
    ensures
        datatype_result(r, compiled_kind(kind, span, params@)),
{
    proof {
        lemma_fold_keeps(kind, span, params@, params@.len() as int);
    }
    let f = gather::<u8>(kind, span, params)?;
    match kind {
        XsdKind::NormalizedString => Ok(
            XsdDatatypes::NormalizedString(StringFacets { len: f.len, pattern: f.pattern }),
        ),
        XsdKind::String => Ok(XsdDatatypes::String(StringFacets { len: f.len, pattern: f.pattern })),
        XsdKind::Date => Ok(XsdDatatypes::Date(f.pattern)),
        XsdKind::AnyURI => Ok(XsdDatatypes::AnyURI(f.pattern)),
        XsdKind::Boolean => Ok(XsdDatatypes::Boolean(f.pattern)),
        XsdKind::Id => Ok(XsdDatatypes::Id(f.pattern)),
        _ => Ok(XsdDatatypes::IdRef(f.pattern)),
    }
}

#[verifier::rlimit(40)]
fn compile_with_length(kind: XsdKind, span: Span, params: &[Param]) -> (r: Result<
    XsdDatatypes,
    XsdDatatypeError,
>)
    requires
        !has_pattern(kind),
        !has_bounds(kind),
        lexical_source(kind) is None,
    ensures
        datatype_result(r, compiled_kind(kind, span, params@)),
{
    proof {
        lemma_fold_keeps(kind, span, params@, params@.len() as int);
    }
    let f = gather::<u8>(kind, span, params)?;
    match kind {
        XsdKind::NmTokens => Ok(XsdDatatypes::NmTokens(f.len)),
        XsdKind::NmToken => Ok(XsdDatatypes::NmToken(f.len)),
        XsdKind::NcName => Ok(XsdDatatypes::NcName(f.len)),
        XsdKind::Token => Ok(XsdDatatypes::Token(f.len)),
        XsdKind::Name => Ok(XsdDatatypes::Name(f.len)),
        XsdKind::Entity => Ok(XsdDatatypes::Entity(f.len)),
        _ => Ok(XsdDatatypes::QNameData),
    }
}

/// The compiled value `r` is what `expected` says: kind, namespace URI (of a
/// `QName`) and text.
pub open spec fn value_result(
    r: Result<XsdDatatypeValues, XsdDatatypeError>,
    expected: Result<(XsdKind, Seq<char>, Seq<char>), XsdFault>,
) -> bool {
    match r {
        Ok(XsdDatatypeValues::String(s)) => expected == Ok::<
            (XsdKind, Seq<char>, Seq<char>),
            XsdFault,
        >((XsdKind::String, Seq::empty(), s@)),
        Ok(XsdDatatypeValues::Token(s)) => expected == Ok::<
            (XsdKind, Seq<char>, Seq<char>),
            XsdFault,
        >((XsdKind::Token, Seq::empty(), s@)),
        Ok(XsdDatatypeValues::QName(q)) => expected == Ok::<
            (XsdKind, Seq<char>, Seq<char>),
            XsdFault,
        >((XsdKind::QNameData, q.0@, q.1@)),
        Err(e) => expected == Err::<(XsdKind, Seq<char>, Seq<char>), XsdFault>(e@),
    }
}

} // verus!
