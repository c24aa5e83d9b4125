//! The datatypes of XML Schema Part 2 with their facets.

use vstd::prelude::*;
use vstd::utf8::encode_utf8;
use crate::decimal::{Decimal, Integer, Natural, Real};
use crate::facets::{Bounds, FacetValue, LengthFacet, MinMaxFacet, Number, number_le};
use crate::ncname::{
    is_name, is_ncname, is_nmtoken, is_nmtokens, is_qname, is_valid_name, is_valid_ncname,
    is_valid_nmtoken, is_valid_nmtokens, is_valid_qname_syntax,
};
use crate::number::{float_lexical, is_float_lexical};
use crate::pattern::{
    pattern_admits, pattern_allows, pattern_same, pattern_wf, raw_of, regex_matches, Lexical,
    PatternFacet,
};
use crate::text::{
    chars_of, is_blank, is_blank_char, normalize_whitespace, normalized, split_words, str_eq,
    words, Blank,
};

verus! {

pub const NAMESPACE_URI: &'static str = "http://www.w3.org/2001/XMLSchema-datatypes";

pub const LANG_RE: &'static str = "^[a-zA-Z]{1,8}(-[a-zA-Z0-9]{1,8})*$";

pub const DATETIME_RE: &'static str =
    "^-?\\d{4}-\\d{2}-\\d{2}T\\d{2}:\\d{2}:\\d{2}(?:Z(?:(?:\\+|-)\\d{2}:\\d{2})?)?$";

pub const DURATION_RE: &'static str =
    "^P(([0-9]+([.,][0-9]*)?Y)?([0-9]+([.,][0-9]*)?M)?([0-9]+([.,][0-9]*)?D)?T?([0-9]+([.,][0-9]*)?H)?([0-9]+([.,][0-9]*)?M)?([0-9]+([.,][0-9]*)?S)?)|\\d{4}-?(0[1-9]|11|12)-?(?:[0-2]\\d|30|31)T((?:[0-1][0-9]|[2][0-3]):?(?:[0-5][0-9]):?(?:[0-5][0-9]|60)|2400|24:00)$";

pub const TIME_RE: &'static str = "^\\d{2}:\\d{2}:\\d{2}(\\.\\d+)?(Z|[+-]\\d{2}:\\d{2})?$";

pub const GYEAR_RE: &'static str = "^-?\\d{4,}(Z|[+-]\\d{2}:\\d{2})?$";

pub const GYEARMONTH_RE: &'static str = "^-?\\d{4,}-\\d{2}(Z|[+-]\\d{2}:\\d{2})?$";

pub const GMONTH_RE: &'static str = "^--\\d{2}(Z|[+-]\\d{2}:\\d{2})?$";

pub const GMONTHDAY_RE: &'static str = "^--\\d{2}-\\d{2}(Z|[+-]\\d{2}:\\d{2})?$";

pub const GDAY_RE: &'static str = "^---\\d{2}(Z|[+-]\\d{2}:\\d{2})?$";

pub const BASE64_RE: &'static str = "^[A-Za-z0-9+/\\s]*={0,2}$";

pub const HEXBINARY_RE: &'static str = "^([0-9A-Fa-f]{2})*$";

pub const DATE_FORMAT: &'static str = "%Y-%m-%d";

/// Whether `NaiveDate::parse_from_str` reads a date from `text` in the
/// given format.
pub uninterp spec fn date_readable(text: Seq<char>, format: Seq<char>) -> bool;

/// `chrono::NaiveDate::parse_from_str(text, format)` succeeds.
#[verifier::external_body]
pub(crate) fn date_parses(text: &str, format: &str) -> (r: bool)
    ensures
        r == date_readable(text@, format@),
{
    chrono::NaiveDate::parse_from_str(text, format).is_ok()
}

/// The built-in types.
#[derive(Clone, Copy, PartialEq, Eq, Structural, Debug)]
pub enum XsdKind {
    NormalizedString,
    String,
    Short,
    UnsignedShort,
    Long,
    Int,
    Integer,
    PositiveInteger,
    UnsignedInt,
    UnsignedLong,
    Decimal,
    Double,
    NmTokens,
    NmToken,
    NcName,
    Token,
    Duration,
    Date,
    Datetime,
    AnyURI,
    Language,
    Boolean,
    Id,
    IdRef,
    Float,
    NonNegativeInteger,
    NegativeInteger,
    NonPositiveInteger,
    Byte,
    UnsignedByte,
    Base64Binary,
    HexBinary,
    GYear,
    GYearMonth,
    GMonth,
    GMonthDay,
    GDay,
    Name,
    QNameData,
    Entity,
    Time,
}

/// Length and pattern of a string type.
pub struct StringFacets {
    pub len: LengthFacet,
    pub pattern: Option<PatternFacet>,
}

impl StringFacets {
    pub open spec fn wf(&self) -> bool {
        pattern_wf(self.pattern)
    }

    pub open spec fn admits(&self, value: Seq<char>) -> bool {
        self.len.admits(value.len()) && pattern_admits(self.pattern, value)
    }

    pub fn is_valid(&self, value: &str) -> (r: bool)
        requires
            self.wf(),
        ensures
            r == self.admits(value@),
    {
        self.len.is_valid(value) && pattern_allows(&self.pattern, value)
    }

    pub fn bounded(&self) -> (r: bool)
        ensures
            r == !(self.len is Unbounded),
    {
        !matches!(self.len, LengthFacet::Unbounded)
    }

    pub fn min_len(&self) -> (r: Option<usize>)
        ensures
            r == match self.len {
                LengthFacet::Unbounded => None,
                LengthFacet::MinLength(min) => Some(min),
                LengthFacet::MaxLength(_) => None,
                LengthFacet::MinMaxLength(min, _) => Some(min),
                LengthFacet::Length(len) => Some(len),
            },
    {
        match self.len {
            LengthFacet::Unbounded => None,
            LengthFacet::MinLength(min) => Some(min),
            LengthFacet::MaxLength(_) => None,
            LengthFacet::MinMaxLength(min, _) => Some(min),
            LengthFacet::Length(len) => Some(len),
        }
    }

    pub fn max_len(&self) -> (r: Option<usize>)
        ensures
            r == match self.len {
                LengthFacet::Unbounded => None,
                LengthFacet::MinLength(_) => None,
                LengthFacet::MaxLength(max) => Some(max),
                LengthFacet::MinMaxLength(_, max) => Some(max),
                LengthFacet::Length(len) => Some(len),
            },
    {
        match self.len {
            LengthFacet::Unbounded => None,
            LengthFacet::MinLength(_) => None,
            LengthFacet::MaxLength(max) => Some(max),
            LengthFacet::MinMaxLength(_, max) => Some(max),
            LengthFacet::Length(len) => Some(len),
        }
    }

    /// The compiled pattern, if the type has one.
    pub fn regex(&self) -> (r: Option<&regex::Regex>)
        ensures
            match self.pattern {
                Some(p) => r matches Some(found) && *found == p.lexical().held(),
                None => r is None,
            },
    {
        match &self.pattern {
            Some(p) => Some(p.regex()),
            None => None,
        }
    }
}

/// A built-in type with the facets that a schema put on it.
pub enum XsdDatatypes {
    NormalizedString(StringFacets),
    String(StringFacets),
    Short(MinMaxFacet<i16>, Option<PatternFacet>),
    UnsignedShort(MinMaxFacet<u16>, Option<PatternFacet>),
    Long(MinMaxFacet<i64>, Option<PatternFacet>),
    Int(MinMaxFacet<i32>, Option<PatternFacet>),
    Integer(MinMaxFacet<Integer>, Option<PatternFacet>),
    PositiveInteger(MinMaxFacet<Natural>, Option<PatternFacet>),
    UnsignedInt(MinMaxFacet<u32>, Option<PatternFacet>),
    UnsignedLong(MinMaxFacet<u64>, Option<PatternFacet>),
    Decimal {
        min_max: MinMaxFacet<Decimal>,
        pattern: Option<PatternFacet>,
        fraction_digits: Option<u16>,
        total_digits: Option<u16>,
    },
    Double(MinMaxFacet<Real>, Option<PatternFacet>),
    NmTokens(LengthFacet),
    NmToken(LengthFacet),
    NcName(LengthFacet),
    Token(LengthFacet),
    Duration(Lexical, Option<PatternFacet>),
    Date(Option<PatternFacet>),
    Datetime(Lexical, Option<PatternFacet>),
    AnyURI(Option<PatternFacet>),
    Language(Lexical, Option<PatternFacet>),
    Boolean(Option<PatternFacet>),
    Id(Option<PatternFacet>),
    IdRef(Option<PatternFacet>),
    Float(MinMaxFacet<Real>, Option<PatternFacet>),
    NonNegativeInteger(MinMaxFacet<Natural>, Option<PatternFacet>),
    NegativeInteger(MinMaxFacet<Integer>, Option<PatternFacet>),
    NonPositiveInteger(MinMaxFacet<Integer>, Option<PatternFacet>),
    Byte(MinMaxFacet<i8>, Option<PatternFacet>),
    UnsignedByte(MinMaxFacet<u8>, Option<PatternFacet>),
    Base64Binary(Lexical, LengthFacet),
    HexBinary(Lexical, LengthFacet),
    GYear(Lexical, Option<PatternFacet>),
    GYearMonth(Lexical, Option<PatternFacet>),
    GMonth(Lexical, Option<PatternFacet>),
    GMonthDay(Lexical, Option<PatternFacet>),
    GDay(Lexical, Option<PatternFacet>),
    Name(LengthFacet),
    QNameData,
    Entity(LengthFacet),
    Time(Lexical, Option<PatternFacet>),
}

/// What a datatype is made of: its kind and its facets, the bounds over the
/// numbers that they stand for and the pattern as it was written.
pub struct Shape {
    pub kind: XsdKind,
    pub len: LengthFacet,
    pub pattern: Option<Seq<char>>,
    pub bounds: Bounds,
    pub fraction_digits: Option<u16>,
    pub total_digits: Option<u16>,
}

/// The regular expression that gives the lexical form of a kind, for the
/// kinds that have one.
pub open spec fn lexical_source(kind: XsdKind) -> Option<&'static str> {
    match kind {
        XsdKind::Language => Some(LANG_RE),
        XsdKind::Datetime => Some(DATETIME_RE),
        XsdKind::Duration => Some(DURATION_RE),
        XsdKind::Time => Some(TIME_RE),
        XsdKind::GYear => Some(GYEAR_RE),
        XsdKind::GYearMonth => Some(GYEARMONTH_RE),
        XsdKind::GMonth => Some(GMONTH_RE),
        XsdKind::GMonthDay => Some(GMONTHDAY_RE),
        XsdKind::GDay => Some(GDAY_RE),
        XsdKind::Base64Binary => Some(BASE64_RE),
        XsdKind::HexBinary => Some(HEXBINARY_RE),
        _ => None,
    }
}

/// The number that `text` denotes as a value or a bound of a numeric kind.
pub open spec fn read_bound(kind: XsdKind, text: Seq<char>) -> Option<Number> {
    match kind {
        XsdKind::Short => <i16 as FacetValue>::read(text),
        XsdKind::UnsignedShort => <u16 as FacetValue>::read(text),
        XsdKind::Long => <i64 as FacetValue>::read(text),
        XsdKind::Int => <i32 as FacetValue>::read(text),
        XsdKind::UnsignedInt => <u32 as FacetValue>::read(text),
        XsdKind::UnsignedLong => <u64 as FacetValue>::read(text),
        XsdKind::Byte => <i8 as FacetValue>::read(text),
        XsdKind::UnsignedByte => <u8 as FacetValue>::read(text),
        XsdKind::Integer => <Integer as FacetValue>::read(text),
        XsdKind::PositiveInteger => <Natural as FacetValue>::read(text),
        XsdKind::NonNegativeInteger => <Natural as FacetValue>::read(text),
        XsdKind::NegativeInteger => <Integer as FacetValue>::read(text),
        XsdKind::NonPositiveInteger => <Integer as FacetValue>::read(text),
        XsdKind::Decimal => <Decimal as FacetValue>::read(text),
        XsdKind::Double => <Real as FacetValue>::read(text),
        XsdKind::Float => <Real as FacetValue>::read(text),
        _ => None,
    }
}

/// What a kind asks of a number beside its bounds.
pub open spec fn in_value_space(kind: XsdKind, v: Number) -> bool {
    match kind {
        XsdKind::PositiveInteger => number_le(Number::Dec(false, seq![1u8], 0), v),
        XsdKind::NegativeInteger => number_le(v, Number::Dec(true, seq![1u8], 0)),
        XsdKind::NonPositiveInteger => number_le(v, Number::Dec(false, seq![0u8], 0)),
        _ => true,
    }
}

/// `value` denotes a number of the kind that lies within the bounds.
pub open spec fn number_admitted(shape: Shape, value: Seq<char>) -> bool {
    match read_bound(shape.kind, value) {
        Some(v) => in_value_space(shape.kind, v) && shape.bounds.admits(v),
        None => false,
    }
}

pub open spec fn shape_pattern_admits(shape: Shape, value: Seq<char>) -> bool {
    match shape.pattern {
        Some(raw) => regex_matches(crate::pattern::anchored(raw), value),
        None => true,
    }
}

pub open spec fn lexical_admits(kind: XsdKind, value: Seq<char>) -> bool {
    match lexical_source(kind) {
        Some(source) => regex_matches(source@, value),
        None => true,
    }
}

/// `s` without its ASCII white space.
pub open spec fn without_blanks(s: Seq<char>) -> Seq<char>
    decreases s.len(),
{
    if s.len() == 0 {
        Seq::empty()
    } else if is_blank(Blank::Ascii, s.last()) {
        without_blanks(s.drop_last())
    } else {
        without_blanks(s.drop_last()).push(s.last())
    }
}

/// The number of `=` at the end of `s`.
pub open spec fn padding(s: Seq<char>) -> nat
    decreases s.len(),
{
    if s.len() > 0 && s.last() == '=' {
        1 + padding(s.drop_last())
    } else {
        0
    }
}

/// The number of octets that a base64 text of `bytes` bytes with `pad`
/// padding characters encodes.
pub open spec fn decoded_octets(bytes: nat, pad: nat) -> nat {
    if bytes * 3 / 4 >= pad {
        (bytes * 3 / 4 - pad) as nat
    } else {
        0
    }
}

/// The number of octets that the base64 text `value` encodes.
pub open spec fn base64_octets(value: Seq<char>) -> nat {
    let stripped = without_blanks(value);
    decoded_octets(encode_utf8(stripped).len(), padding(stripped))
}

pub open spec fn is_boolean(value: Seq<char>) -> bool {
    value == "true"@ || value == "false"@ || value == "1"@ || value == "0"@
}

/// Whether `value` is a lexical form of the datatype with this shape.
pub open spec fn accepts(shape: Shape, value: Seq<char>) -> bool {
    match shape.kind {
        XsdKind::NormalizedString => shape.len.admits(normalized(value).len())
            && shape_pattern_admits(shape, normalized(value)),
        XsdKind::String => shape.len.admits(value.len()) && shape_pattern_admits(shape, value),
        XsdKind::NmTokens => is_nmtokens(value) && shape.len.admits(
            words(value, Blank::Ascii).len(),
        ),
        XsdKind::NmToken => is_nmtoken(value) && shape.len.admits(value.len()),
        XsdKind::NcName => is_ncname(value) && shape.len.admits(value.len()),
        XsdKind::Entity => is_ncname(value) && shape.len.admits(value.len()),
        XsdKind::Name => is_name(value) && shape.len.admits(value.len()),
        XsdKind::Token => normalized(value) == value && shape.len.admits(value.len()),
        XsdKind::QNameData => is_qname(value),
        XsdKind::Base64Binary => lexical_admits(shape.kind, value) && shape.len.admits(
            base64_octets(value),
        ),
        XsdKind::HexBinary => lexical_admits(shape.kind, value) && shape.len.admits(
            encode_utf8(value).len() / 2,
        ),
        XsdKind::Date => date_readable(value, DATE_FORMAT@) && shape_pattern_admits(shape, value),
        XsdKind::Boolean => is_boolean(value) && shape_pattern_admits(shape, value),
        XsdKind::Double
            | XsdKind::Float => float_lexical(value) && (shape.bounds == Bounds::unbounded()
            || number_admitted(shape, value)) && shape_pattern_admits(shape, value),
        XsdKind::AnyURI | XsdKind::Id | XsdKind::IdRef => shape_pattern_admits(shape, value),
        XsdKind::Duration | XsdKind::Datetime | XsdKind::Language | XsdKind::Time | XsdKind::GYear
            | XsdKind::GYearMonth | XsdKind::GMonth | XsdKind::GMonthDay
            | XsdKind::GDay => lexical_admits(shape.kind, value) && shape_pattern_admits(shape, value),
        XsdKind::Short | XsdKind::UnsignedShort | XsdKind::Long | XsdKind::Int
            | XsdKind::UnsignedInt | XsdKind::UnsignedLong | XsdKind::Byte | XsdKind::UnsignedByte
            | XsdKind::Integer | XsdKind::PositiveInteger | XsdKind::NonNegativeInteger
            | XsdKind::NegativeInteger | XsdKind::NonPositiveInteger
            | XsdKind::Decimal => number_admitted(shape, value) && shape_pattern_admits(shape, value),
    }
}

impl XsdDatatypes {
    /// The kind of the type.
    pub open spec fn kind(&self) -> XsdKind {
        match self {
            XsdDatatypes::NormalizedString(_) => XsdKind::NormalizedString,
            XsdDatatypes::String(_) => XsdKind::String,
            XsdDatatypes::Short(_, _) => XsdKind::Short,
            XsdDatatypes::UnsignedShort(_, _) => XsdKind::UnsignedShort,
            XsdDatatypes::Long(_, _) => XsdKind::Long,
            XsdDatatypes::Int(_, _) => XsdKind::Int,
            XsdDatatypes::Integer(_, _) => XsdKind::Integer,
            XsdDatatypes::PositiveInteger(_, _) => XsdKind::PositiveInteger,
            XsdDatatypes::UnsignedInt(_, _) => XsdKind::UnsignedInt,
            XsdDatatypes::UnsignedLong(_, _) => XsdKind::UnsignedLong,
            XsdDatatypes::Decimal { .. } => XsdKind::Decimal,
            XsdDatatypes::Double(_, _) => XsdKind::Double,
            XsdDatatypes::NmTokens(_) => XsdKind::NmTokens,
            XsdDatatypes::NmToken(_) => XsdKind::NmToken,
            XsdDatatypes::NcName(_) => XsdKind::NcName,
            XsdDatatypes::Token(_) => XsdKind::Token,
            XsdDatatypes::Duration(_, _) => XsdKind::Duration,
            XsdDatatypes::Date(_) => XsdKind::Date,
            XsdDatatypes::Datetime(_, _) => XsdKind::Datetime,
            XsdDatatypes::AnyURI(_) => XsdKind::AnyURI,
            XsdDatatypes::Language(_, _) => XsdKind::Language,
            XsdDatatypes::Boolean(_) => XsdKind::Boolean,
            XsdDatatypes::Id(_) => XsdKind::Id,
            XsdDatatypes::IdRef(_) => XsdKind::IdRef,
            XsdDatatypes::Float(_, _) => XsdKind::Float,
            XsdDatatypes::NonNegativeInteger(_, _) => XsdKind::NonNegativeInteger,
            XsdDatatypes::NegativeInteger(_, _) => XsdKind::NegativeInteger,
            XsdDatatypes::NonPositiveInteger(_, _) => XsdKind::NonPositiveInteger,
            XsdDatatypes::Byte(_, _) => XsdKind::Byte,
            XsdDatatypes::UnsignedByte(_, _) => XsdKind::UnsignedByte,
            XsdDatatypes::Base64Binary(_, _) => XsdKind::Base64Binary,
            XsdDatatypes::HexBinary(_, _) => XsdKind::HexBinary,
            XsdDatatypes::GYear(_, _) => XsdKind::GYear,
            XsdDatatypes::GYearMonth(_, _) => XsdKind::GYearMonth,
            XsdDatatypes::GMonth(_, _) => XsdKind::GMonth,
            XsdDatatypes::GMonthDay(_, _) => XsdKind::GMonthDay,
            XsdDatatypes::GDay(_, _) => XsdKind::GDay,
            XsdDatatypes::Name(_) => XsdKind::Name,
            XsdDatatypes::QNameData => XsdKind::QNameData,
            XsdDatatypes::Entity(_) => XsdKind::Entity,
            XsdDatatypes::Time(_, _) => XsdKind::Time,
        }
    }

    pub open spec fn length(&self) -> LengthFacet {
        match self {
            XsdDatatypes::NormalizedString(f) => f.len,
            XsdDatatypes::String(f) => f.len,
            XsdDatatypes::NmTokens(len) => *len,
            XsdDatatypes::NmToken(len) => *len,
            XsdDatatypes::NcName(len) => *len,
            XsdDatatypes::Token(len) => *len,
            XsdDatatypes::Name(len) => *len,
            XsdDatatypes::Entity(len) => *len,
            XsdDatatypes::Base64Binary(_, len) => *len,
            XsdDatatypes::HexBinary(_, len) => *len,
            _ => LengthFacet::Unbounded,
        }
    }

    pub open spec fn pattern(&self) -> Option<PatternFacet> {
        match self {
            XsdDatatypes::NormalizedString(f) => f.pattern,
            XsdDatatypes::String(f) => f.pattern,
            XsdDatatypes::Decimal { pattern, .. } => *pattern,
            XsdDatatypes::Short(_, p) => *p,
            XsdDatatypes::UnsignedShort(_, p) => *p,
            XsdDatatypes::Long(_, p) => *p,
            XsdDatatypes::Int(_, p) => *p,
            XsdDatatypes::UnsignedInt(_, p) => *p,
            XsdDatatypes::UnsignedLong(_, p) => *p,
            XsdDatatypes::Byte(_, p) => *p,
            XsdDatatypes::UnsignedByte(_, p) => *p,
            XsdDatatypes::Integer(_, p) => *p,
            XsdDatatypes::PositiveInteger(_, p) => *p,
            XsdDatatypes::NonNegativeInteger(_, p) => *p,
            XsdDatatypes::NegativeInteger(_, p) => *p,
            XsdDatatypes::NonPositiveInteger(_, p) => *p,
            XsdDatatypes::Double(_, p) => *p,
            XsdDatatypes::Float(_, p) => *p,
            XsdDatatypes::Duration(_, p) => *p,
            XsdDatatypes::Datetime(_, p) => *p,
            XsdDatatypes::Language(_, p) => *p,
            XsdDatatypes::Time(_, p) => *p,
            XsdDatatypes::GYear(_, p) => *p,
            XsdDatatypes::GYearMonth(_, p) => *p,
            XsdDatatypes::GMonth(_, p) => *p,
            XsdDatatypes::GMonthDay(_, p) => *p,
            XsdDatatypes::GDay(_, p) => *p,
            XsdDatatypes::Date(p) => *p,
            XsdDatatypes::AnyURI(p) => *p,
            XsdDatatypes::Boolean(p) => *p,
            XsdDatatypes::Id(p) => *p,
            XsdDatatypes::IdRef(p) => *p,
            _ => None,
        }
    }

    pub open spec fn bounds(&self) -> Bounds {
        match self {
            XsdDatatypes::Decimal { min_max, .. } => min_max@,
            XsdDatatypes::Short(m, _) => m@,
            XsdDatatypes::UnsignedShort(m, _) => m@,
            XsdDatatypes::Long(m, _) => m@,
            XsdDatatypes::Int(m, _) => m@,
            XsdDatatypes::UnsignedInt(m, _) => m@,
            XsdDatatypes::UnsignedLong(m, _) => m@,
            XsdDatatypes::Byte(m, _) => m@,
            XsdDatatypes::UnsignedByte(m, _) => m@,
            XsdDatatypes::Integer(m, _) => m@,
            XsdDatatypes::PositiveInteger(m, _) => m@,
            XsdDatatypes::NonNegativeInteger(m, _) => m@,
            XsdDatatypes::NegativeInteger(m, _) => m@,
            XsdDatatypes::NonPositiveInteger(m, _) => m@,
            XsdDatatypes::Double(m, _) => m@,
            XsdDatatypes::Float(m, _) => m@,
            _ => Bounds::unbounded(),
        }
    }

    pub open spec fn bounds_wf(&self) -> bool {
        match self {
            XsdDatatypes::Decimal { min_max, .. } => min_max.wf(),
            XsdDatatypes::Short(m, _) => m.wf(),
            XsdDatatypes::UnsignedShort(m, _) => m.wf(),
            XsdDatatypes::Long(m, _) => m.wf(),
            XsdDatatypes::Int(m, _) => m.wf(),
            XsdDatatypes::UnsignedInt(m, _) => m.wf(),
            XsdDatatypes::UnsignedLong(m, _) => m.wf(),
            XsdDatatypes::Byte(m, _) => m.wf(),
            XsdDatatypes::UnsignedByte(m, _) => m.wf(),
            XsdDatatypes::Integer(m, _) => m.wf(),
            XsdDatatypes::PositiveInteger(m, _) => m.wf(),
            XsdDatatypes::NonNegativeInteger(m, _) => m.wf(),
            XsdDatatypes::NegativeInteger(m, _) => m.wf(),
            XsdDatatypes::NonPositiveInteger(m, _) => m.wf(),
            XsdDatatypes::Double(m, _) => m.wf(),
            XsdDatatypes::Float(m, _) => m.wf(),
            _ => true,
        }
    }

    /// The compiled lexical form, for the kinds that have one.
    pub open spec fn lexical(&self) -> Option<Lexical> {
        match self {
            XsdDatatypes::Duration(l, _) => Some(*l),
            XsdDatatypes::Datetime(l, _) => Some(*l),
            XsdDatatypes::Language(l, _) => Some(*l),
            XsdDatatypes::Time(l, _) => Some(*l),
            XsdDatatypes::GYear(l, _) => Some(*l),
            XsdDatatypes::GYearMonth(l, _) => Some(*l),
            XsdDatatypes::GMonth(l, _) => Some(*l),
            XsdDatatypes::GMonthDay(l, _) => Some(*l),
            XsdDatatypes::GDay(l, _) => Some(*l),
            XsdDatatypes::Base64Binary(l, _) => Some(*l),
            XsdDatatypes::HexBinary(l, _) => Some(*l),
            _ => None,
        }
    }

    /// The pattern is compiled from what was written, the bounds can be
    /// compared, and the lexical form is the one of the kind.
    pub open spec fn wf(&self) -> bool {
        &&& pattern_wf(self.pattern())
        &&& self.bounds_wf()
        &&& match self.lexical() {
            Some(l) => lexical_source(self.kind()) matches Some(source) && l.source() == source@,
            None => lexical_source(self.kind()) is None,
        }
    }

    pub open spec fn shape(&self) -> Shape {
        Shape {
            kind: self.kind(),
            len: self.length(),
            pattern: raw_of(self.pattern()),
            bounds: self.bounds(),
            fraction_digits: match self {
                XsdDatatypes::Decimal { fraction_digits, .. } => *fraction_digits,
                _ => None,
            },
            total_digits: match self {
                XsdDatatypes::Decimal { total_digits, .. } => *total_digits,
                _ => None,
            },
        }
    }

    /// Whether `value` is a lexical form of the datatype.
    pub open spec fn accepts(&self, value: Seq<char>) -> bool {
        accepts(self.shape(), value)
    }
}

/// Whether `value` denotes a number of type `T` within `min_max`.
fn bounded_number<T: FacetValue>(min_max: &MinMaxFacet<T>, value: &str) -> (r: bool)
    requires
        min_max.wf(),
    ensures
        r == match T::read(value@) {
            Some(n) => min_max@.admits(n),
            None => false,
        },
{
    match T::parse(value) {
        Some(v) => min_max.is_valid(&v),
        None => false,
    }
}

/// `text` without its ASCII white space.
pub fn strip_blanks(text: &str) -> (r: String)
    ensures
        r@ == without_blanks(text@),
{
    let mut out = String::new();
    for c in it: text.chars()
        invariant
            it.seq() == text@,
            out@ == without_blanks(text@.take(it.index() as int)),
    {
        proof {
            let next = text@.take(it.index() + 1);
            assert(next.drop_last() == text@.take(it.index() as int));
            assert(next.last() == c);
        }
        if !is_blank_char(Blank::Ascii, c) {
            out.push(c);
        }
    }
    assert(text@.take(text@.len() as int) == text@);
    out
}

/// The number of `=` at the end of `text`.
pub fn count_padding(text: &str) -> (r: usize)
    ensures
        r == padding(text@),
{
    let v = chars_of(text);
    let mut k: usize = v.len();
    let mut count: usize = 0;
    assert(v@.take(k as int) == v@);
    while k > 0 && v[k - 1] == '='
        invariant
            k <= v.len(),
            count + k == v.len(),
            padding(v@) == count + padding(v@.take(k as int)),
        decreases k,
    {
        proof {
            let cur = v@.take(k as int);
            assert(cur.drop_last() == v@.take(k - 1));
            assert(cur.last() == v@[k - 1]);
        }
        k -= 1;
        count += 1;
    }
    proof {
        let cur = v@.take(k as int);
        if k > 0 {
            assert(cur.last() == v@[k - 1]);
        }
    }
    count
}

/// The number of octets that the base64 text `value` encodes.
pub fn base64_len(value: &str) -> (r: usize)
    ensures
        r == base64_octets(value@),
{
    let stripped = strip_blanks(value);
    let bytes = stripped.as_str().as_bytes().len();
    let pad = count_padding(stripped.as_str());
    assert(bytes == encode_utf8(without_blanks(value@)).len());
    assert(bytes * 3 / 4 <= bytes);
    let whole: usize = ((bytes as u128) * 3 / 4) as usize;
    if whole >= pad {
        whole - pad
    } else {
        0
    }
}

impl XsdDatatypes {
    /// Whether `value` is a lexical form of a type of machine integers.
    fn is_valid_machine(&self, value: &str) -> (r: bool)
        requires
            self.wf(),
            machine_kind(self.kind()),
        ensures
            r == self.accepts(value@),
    {
        match self {
            XsdDatatypes::Short(min_max, patt) => bounded_number::<i16>(min_max, value)
                && pattern_allows(patt, value),
            XsdDatatypes::UnsignedShort(min_max, patt) => bounded_number::<u16>(min_max, value)
                && pattern_allows(patt, value),
            XsdDatatypes::Long(min_max, patt) => bounded_number::<i64>(min_max, value)
                && pattern_allows(patt, value),
            XsdDatatypes::Int(min_max, patt) => bounded_number::<i32>(min_max, value)
                && pattern_allows(patt, value),
            XsdDatatypes::UnsignedInt(min_max, patt) => bounded_number::<u32>(min_max, value)
                && pattern_allows(patt, value),
            XsdDatatypes::UnsignedLong(min_max, patt) => bounded_number::<u64>(min_max, value)
                && pattern_allows(patt, value),
            XsdDatatypes::Byte(min_max, patt) => bounded_number::<i8>(min_max, value)
                && pattern_allows(patt, value),
            XsdDatatypes::UnsignedByte(min_max, patt) => bounded_number::<u8>(min_max, value)
                && pattern_allows(patt, value),
            _ => false,
        }
    }

    /// Whether `value` is a lexical form of a type of unbounded numbers.
    fn is_valid_number(&self, value: &str) -> (r: bool)
        requires
            self.wf(),
            number_kind(self.kind()),
        ensures
            r == self.accepts(value@),
    {
        match self {
            XsdDatatypes::Integer(min_max, patt) => bounded_number::<Integer>(min_max, value)
                && pattern_allows(patt, value),
            XsdDatatypes::NonNegativeInteger(min_max, patt) => bounded_number::<Natural>(
                min_max,
                value,
            ) && pattern_allows(patt, value),
            XsdDatatypes::PositiveInteger(min_max, patt) => {
                let positive = match Natural::parse(value) {
                    Some(v) => {
                        let one = Natural(Decimal::unit(false, 1));
                        one.at_most(&v) && min_max.is_valid(&v)
                    },
                    None => false,
                };
                positive && pattern_allows(patt, value)
            },
            XsdDatatypes::NegativeInteger(min_max, patt) => {
                let negative = match Integer::parse(value) {
                    Some(v) => {
                        let minus_one = Integer(Decimal::unit(true, 1));
                        v.at_most(&minus_one) && min_max.is_valid(&v)
                    },
                    None => false,
                };
                negative && pattern_allows(patt, value)
            },
            XsdDatatypes::NonPositiveInteger(min_max, patt) => {
                let non_positive = match Integer::parse(value) {
                    Some(v) => {
                        let zero = Integer(Decimal::unit(false, 0));
                        v.at_most(&zero) && min_max.is_valid(&v)
                    },
                    None => false,
                };
                non_positive && pattern_allows(patt, value)
            },
            XsdDatatypes::Decimal { min_max, pattern: pat, fraction_digits: _, total_digits: _ } => {
                bounded_number::<Decimal>(min_max, value) && pattern_allows(pat, value)
            },
            XsdDatatypes::Double(min_max, patt) => {
                is_float_lexical(value) && (!min_max.bounded() || bounded_number::<Real>(
                    min_max,
                    value,
                )) && pattern_allows(patt, value)
            },
            XsdDatatypes::Float(min_max, patt) => {
                is_float_lexical(value) && (!min_max.bounded() || bounded_number::<Real>(
                    min_max,
                    value,
                )) && pattern_allows(patt, value)
            },
            _ => false,
        }
    }

    /// Whether `value` is a lexical form of a type whose form is given by a
    /// regular expression.
    fn is_valid_lexical(&self, value: &str) -> (r: bool)
        requires
            self.wf(),
            lexical_source(self.kind()) is Some,
        ensures
            r == self.accepts(value@),
    {
        match self {
            XsdDatatypes::Base64Binary(lexical, len) => {
                // length facet counts decoded octets
                lexical.is_match(value) && len.allows(base64_len(value))
            },
            XsdDatatypes::HexBinary(lexical, len) => {
                // length facet counts octets (hex chars / 2)
                lexical.is_match(value) && len.allows(value.as_bytes().len() / 2)
            },
            XsdDatatypes::Duration(lexical, patt) => lexical.is_match(value) && pattern_allows(
                patt,
                value,
            ),
            XsdDatatypes::Datetime(lexical, patt) => lexical.is_match(value) && pattern_allows(
                patt,
                value,
            ),
            XsdDatatypes::Language(lexical, patt) => lexical.is_match(value) && pattern_allows(
                patt,
                value,
            ),
            XsdDatatypes::Time(lexical, patt) => lexical.is_match(value) && pattern_allows(
                patt,
                value,
            ),
            XsdDatatypes::GYear(lexical, patt) => lexical.is_match(value) && pattern_allows(
                patt,
                value,
            ),
            XsdDatatypes::GYearMonth(lexical, patt) => lexical.is_match(value) && pattern_allows(
                patt,
                value,
            ),
            XsdDatatypes::GMonth(lexical, patt) => lexical.is_match(value) && pattern_allows(
                patt,
                value,
            ),
            XsdDatatypes::GMonthDay(lexical, patt) => lexical.is_match(value) && pattern_allows(
                patt,
                value,
            ),
            XsdDatatypes::GDay(lexical, patt) => lexical.is_match(value) && pattern_allows(
                patt,
                value,
            ),
            _ => false,
        }
    }

    /// Whether `value` is a lexical form of a type of strings or names.
    fn is_valid_text(&self, value: &str) -> (r: bool)
        requires
            self.wf(),
            !machine_kind(self.kind()),
            !number_kind(self.kind()),
            lexical_source(self.kind()) is None,
        ensures
            r == self.accepts(value@),
    {
        match self {
            XsdDatatypes::NormalizedString(str_facets) => {
                let normal_val = normalize_whitespace(value);
                str_facets.is_valid(normal_val.as_str())
            },
            XsdDatatypes::String(str_facets) => str_facets.is_valid(value),
            XsdDatatypes::NmTokens(len) => {
                // length facets on NMTOKENS count the number of tokens
                is_valid_nmtokens(value) && len.allows(split_words(value, Blank::Ascii).len())
            },
            XsdDatatypes::NmToken(len) => is_valid_nmtoken(value) && len.is_valid(value),
            XsdDatatypes::NcName(len) => len.is_valid(value) && is_valid_ncname(value),
            XsdDatatypes::Token(len) => {
                // token: whitespace-collapsed string (no leading/trailing space,
                // no consecutive internal spaces)
                let normal = normalize_whitespace(value);
                str_eq(normal.as_str(), value) && len.is_valid(value)
            },
            XsdDatatypes::Date(patt) => date_parses(value, DATE_FORMAT) && pattern_allows(
                patt,
                value,
            ),
            XsdDatatypes::AnyURI(patt) => pattern_allows(patt, value),
            XsdDatatypes::Boolean(patt) => {
                (str_eq(value, "true") || str_eq(value, "false") || str_eq(value, "1") || str_eq(
                    value,
                    "0",
                )) && pattern_allows(patt, value)
            },
            XsdDatatypes::Id(patt) => pattern_allows(patt, value),
            XsdDatatypes::IdRef(patt) => pattern_allows(patt, value),
            XsdDatatypes::Name(len) => is_valid_name(value) && len.is_valid(value),
            XsdDatatypes::QNameData => is_valid_qname_syntax(value),
            XsdDatatypes::Entity(len) => is_valid_ncname(value) && len.is_valid(value),
            _ => false,
        }
    }

    /// Whether `value` is a lexical form of the datatype.
    pub fn is_valid(&self, value: &str) -> (r: bool)
        requires
            self.wf(),
        ensures
            r == self.accepts(value@),
    {
        match self {
            XsdDatatypes::Short(_, _)
            | XsdDatatypes::UnsignedShort(_, _)
            | XsdDatatypes::Long(_, _)
            | XsdDatatypes::Int(_, _)
            | XsdDatatypes::UnsignedInt(_, _)
            | XsdDatatypes::UnsignedLong(_, _)
            | XsdDatatypes::Byte(_, _)
            | XsdDatatypes::UnsignedByte(_, _) => self.is_valid_machine(value),
            XsdDatatypes::Integer(_, _)
            | XsdDatatypes::PositiveInteger(_, _)
            | XsdDatatypes::NonNegativeInteger(_, _)
            | XsdDatatypes::NegativeInteger(_, _)
            | XsdDatatypes::NonPositiveInteger(_, _)
            | XsdDatatypes::Decimal { .. }
            | XsdDatatypes::Double(_, _)
            | XsdDatatypes::Float(_, _) => self.is_valid_number(value),
            XsdDatatypes::Duration(_, _)
            | XsdDatatypes::Datetime(_, _)
            | XsdDatatypes::Language(_, _)
            | XsdDatatypes::Time(_, _)
            | XsdDatatypes::GYear(_, _)
            | XsdDatatypes::GYearMonth(_, _)
            | XsdDatatypes::GMonth(_, _)
            | XsdDatatypes::GMonthDay(_, _)
            | XsdDatatypes::GDay(_, _)
            | XsdDatatypes::Base64Binary(_, _)
            | XsdDatatypes::HexBinary(_, _) => self.is_valid_lexical(value),
            _ => self.is_valid_text(value),
        }
    }
}

/// Whether two optional counts of digits are the same.
fn same_count(a: Option<u16>, b: Option<u16>) -> (r: bool)
    ensures
        r == (a == b),
{
    match (a, b) {
        (Some(x), Some(y)) => x == y,
        (None, None) => true,
        _ => false,
    }
}

impl XsdDatatypes {
    /// Whether two datatypes are of the same kind and have the same facets,
    /// written the same way.
    pub fn same(&self, other: &XsdDatatypes) -> (r: bool)
        ensures
            r == (self.shape() == other.shape()),
    {
        match (self, other) {
            (XsdDatatypes::NormalizedString(a), XsdDatatypes::NormalizedString(b)) => {
                a.len == b.len && pattern_same(&a.pattern, &b.pattern)
            },
            (XsdDatatypes::String(a), XsdDatatypes::String(b)) => {
                a.len == b.len && pattern_same(&a.pattern, &b.pattern)
            },
            (XsdDatatypes::Short(m, p), XsdDatatypes::Short(n, q)) => {
                m.same(n) && pattern_same(p, q)
            },
            (XsdDatatypes::UnsignedShort(m, p), XsdDatatypes::UnsignedShort(n, q)) => {
                m.same(n) && pattern_same(p, q)
            },
            (XsdDatatypes::Long(m, p), XsdDatatypes::Long(n, q)) => {
                m.same(n) && pattern_same(p, q)
            },
            (XsdDatatypes::Int(m, p), XsdDatatypes::Int(n, q)) => {
                m.same(n) && pattern_same(p, q)
            },
            (XsdDatatypes::UnsignedInt(m, p), XsdDatatypes::UnsignedInt(n, q)) => {
                m.same(n) && pattern_same(p, q)
            },
            (XsdDatatypes::UnsignedLong(m, p), XsdDatatypes::UnsignedLong(n, q)) => {
                m.same(n) && pattern_same(p, q)
            },
            (XsdDatatypes::Byte(m, p), XsdDatatypes::Byte(n, q)) => {
                m.same(n) && pattern_same(p, q)
            },
            (XsdDatatypes::UnsignedByte(m, p), XsdDatatypes::UnsignedByte(n, q)) => {
                m.same(n) && pattern_same(p, q)
            },
            (XsdDatatypes::Integer(m, p), XsdDatatypes::Integer(n, q)) => {
                m.same(n) && pattern_same(p, q)
            },
            (XsdDatatypes::PositiveInteger(m, p), XsdDatatypes::PositiveInteger(n, q)) => {
                m.same(n) && pattern_same(p, q)
            },
            (XsdDatatypes::NonNegativeInteger(m, p), XsdDatatypes::NonNegativeInteger(n, q)) => {
                m.same(n) && pattern_same(p, q)
            },
            (XsdDatatypes::NegativeInteger(m, p), XsdDatatypes::NegativeInteger(n, q)) => {
                m.same(n) && pattern_same(p, q)
            },
            (XsdDatatypes::NonPositiveInteger(m, p), XsdDatatypes::NonPositiveInteger(n, q)) => {
                m.same(n) && pattern_same(p, q)
            },
            (XsdDatatypes::Double(m, p), XsdDatatypes::Double(n, q)) => {
                m.same(n) && pattern_same(p, q)
            },
            (XsdDatatypes::Float(m, p), XsdDatatypes::Float(n, q)) => {
                m.same(n) && pattern_same(p, q)
            },
            (
                XsdDatatypes::Decimal { min_max: m, pattern: p, fraction_digits: f, total_digits: t },
                XsdDatatypes::Decimal { min_max: n, pattern: q, fraction_digits: g, total_digits: u },
            ) => m.same(n) && pattern_same(p, q) && same_count(*f, *g) && same_count(*t, *u),
            (XsdDatatypes::NmTokens(a), XsdDatatypes::NmTokens(b)) => *a == *b,
            (XsdDatatypes::NmToken(a), XsdDatatypes::NmToken(b)) => *a == *b,
            (XsdDatatypes::NcName(a), XsdDatatypes::NcName(b)) => *a == *b,
            (XsdDatatypes::Token(a), XsdDatatypes::Token(b)) => *a == *b,
            (XsdDatatypes::Name(a), XsdDatatypes::Name(b)) => *a == *b,
            (XsdDatatypes::Entity(a), XsdDatatypes::Entity(b)) => *a == *b,
            (XsdDatatypes::Duration(_, p), XsdDatatypes::Duration(_, q)) => pattern_same(p, q),
            (XsdDatatypes::Datetime(_, p), XsdDatatypes::Datetime(_, q)) => pattern_same(p, q),
            (XsdDatatypes::Language(_, p), XsdDatatypes::Language(_, q)) => pattern_same(p, q),
            (XsdDatatypes::Time(_, p), XsdDatatypes::Time(_, q)) => pattern_same(p, q),
            (XsdDatatypes::GYear(_, p), XsdDatatypes::GYear(_, q)) => pattern_same(p, q),
            (XsdDatatypes::GYearMonth(_, p), XsdDatatypes::GYearMonth(_, q)) => pattern_same(p, q),
            (XsdDatatypes::GMonth(_, p), XsdDatatypes::GMonth(_, q)) => pattern_same(p, q),
            (XsdDatatypes::GMonthDay(_, p), XsdDatatypes::GMonthDay(_, q)) => pattern_same(p, q),
            (XsdDatatypes::GDay(_, p), XsdDatatypes::GDay(_, q)) => pattern_same(p, q),
            (XsdDatatypes::Date(p), XsdDatatypes::Date(q)) => pattern_same(p, q),
            (XsdDatatypes::AnyURI(p), XsdDatatypes::AnyURI(q)) => pattern_same(p, q),
            (XsdDatatypes::Boolean(p), XsdDatatypes::Boolean(q)) => pattern_same(p, q),
            (XsdDatatypes::Id(p), XsdDatatypes::Id(q)) => pattern_same(p, q),
            (XsdDatatypes::IdRef(p), XsdDatatypes::IdRef(q)) => pattern_same(p, q),
            (XsdDatatypes::Base64Binary(_, a), XsdDatatypes::Base64Binary(_, b)) => *a == *b,
            (XsdDatatypes::HexBinary(_, a), XsdDatatypes::HexBinary(_, b)) => *a == *b,
            (XsdDatatypes::QNameData, XsdDatatypes::QNameData) => true,
            _ => false,
        }
    }
}

/// The kinds of machine integers.
pub open spec fn machine_kind(kind: XsdKind) -> bool {
    matches!(kind, XsdKind::Short | XsdKind::UnsignedShort | XsdKind::Long | XsdKind::Int
        | XsdKind::UnsignedInt | XsdKind::UnsignedLong | XsdKind::Byte | XsdKind::UnsignedByte)
}

/// The kinds of unbounded and floating-point numbers.
pub open spec fn number_kind(kind: XsdKind) -> bool {
    matches!(kind, XsdKind::Integer | XsdKind::PositiveInteger | XsdKind::NonNegativeInteger
        | XsdKind::NegativeInteger | XsdKind::NonPositiveInteger | XsdKind::Decimal
        | XsdKind::Double | XsdKind::Float)
}

} // verus!
