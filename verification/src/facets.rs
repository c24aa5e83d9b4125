//! Facets that restrict a datatype: lengths and bounds.

use vstd::prelude::*;
use crate::decimal::{
    decimal_le, decimal_text, integer_text, lemma_scaled_integer, lemma_unit, natural_text,
    pow10, scaled, unscaled, Decimal, Integer, Natural, Real,
};
use crate::number::{
    float_lexical, integer_in, is_float_lexical, parse_i16, parse_i32, parse_i64, parse_i8,
    parse_u16, parse_u32, parse_u64, parse_u8,
};
use crate::span::Span;
use crate::text::char_count;

verus! {

/// Why a facet was refused.
#[derive(Debug)]
pub enum FacetError {
    /// Two facets cannot hold together; the text names the facet.
    ConflictingFacet(&'static str),
    /// The value of a facet is no number of its type; with the value.
    InvalidInt(Span, String),
    /// The value of a facet is no finite decimal number; with the value.
    InvalidFloat(Span, String),
    /// A regular expression was refused; with the reason.
    InvalidPattern(Span, String),
    /// The datatype does not have this facet; with the facet's name.
    InvalidFacet(Span, String),
}

/// What went wrong with a facet, over character sequences: for a value
/// that is no number the place and the value. Why a regular expression was
/// refused is told by the library that compiles it, and is left out.
pub enum Fault {
    Conflict(&'static str),
    BadNumber(Span, Seq<char>),
    BadFloat(Span, Seq<char>),
    BadPattern(Span),
    BadFacet(Span, Seq<char>),
}

impl View for FacetError {
    type V = Fault;

    open spec fn view(&self) -> Fault {
        match self {
            FacetError::ConflictingFacet(why) => Fault::Conflict(why),
            FacetError::InvalidInt(span, value) => Fault::BadNumber(*span, value@),
            FacetError::InvalidFloat(span, value) => Fault::BadFloat(*span, value@),
            FacetError::InvalidPattern(span, _) => Fault::BadPattern(*span),
            FacetError::InvalidFacet(span, name) => Fault::BadFacet(*span, name@),
        }
    }
}

/// A restriction on the length of a value.
#[derive(PartialEq, Eq, Structural, Hash, Clone, Copy, Debug)]
pub enum LengthFacet {
    Unbounded,
    MinLength(usize),
    MaxLength(usize),
    MinMaxLength(usize, usize),
    Length(usize),
}

impl LengthFacet {
    /// Whether a value of `n` units satisfies the facet.
    pub open spec fn admits(self, n: nat) -> bool {
        match self {
            LengthFacet::Unbounded => true,
            LengthFacet::MinLength(min) => min <= n,
            LengthFacet::MaxLength(max) => n <= max,
            LengthFacet::MinMaxLength(min, max) => min <= n && n <= max,
            LengthFacet::Length(len) => n == len,
        }
    }

    /// The facet that holds both restrictions, or the facet that they
    /// conflict about.
    pub open spec fn merged(self, other: LengthFacet) -> Result<LengthFacet, &'static str> {
        match (self, other) {
            (LengthFacet::Unbounded, LengthFacet::MinMaxLength(min, max)) => if min > max {
                Err("minLength greater than maxLength")
            } else {
                Ok(other)
            },
            (LengthFacet::Unbounded, _) => Ok(other),
            (_, LengthFacet::Unbounded) => Ok(self),
            (_, LengthFacet::Length(_)) => Err("length"),
            (LengthFacet::Length(_), _) => Err("length"),
            (LengthFacet::MinLength(min), LengthFacet::MaxLength(max)) => if min > max {
                Err("minLength greater than maxLength")
            } else {
                Ok(LengthFacet::MinMaxLength(min, max))
            },
            (LengthFacet::MaxLength(max), LengthFacet::MinLength(min)) => if min > max {
                Err("minLength greater than maxLength")
            } else {
                Ok(LengthFacet::MinMaxLength(min, max))
            },
            (LengthFacet::MaxLength(_), _) => Err("maxLength"),
            (LengthFacet::MinMaxLength(_, _), LengthFacet::MaxLength(_)) => Err("maxLength"),
            (_, _) => Err("minLength"),
        }
    }

    /// Whether `n` units satisfy the facet.
    pub fn allows(&self, n: usize) -> (r: bool)
        ensures
            r == self.admits(n as nat),
    {
        match self {
            LengthFacet::Unbounded => true,
            LengthFacet::MinLength(min) => *min <= n,
            LengthFacet::MaxLength(max) => n <= *max,
            LengthFacet::MinMaxLength(min, max) => *min <= n && n <= *max,
            LengthFacet::Length(len) => n == *len,
        }
    }

    /// Whether the number of characters of `value` satisfies the facet.
    pub fn is_valid(&self, value: &str) -> (r: bool)
        ensures
            r == self.admits(value@.len()),
    {
        let actual = char_count(value);
        self.allows(actual)
    }

    /// Adds the restriction `other` to this facet. On a conflict the facet
    /// stays as it was.
    pub fn merge(&mut self, other: LengthFacet) -> (r: Result<(), FacetError>)
        ensures
            match r {
                Ok(()) => old(self).merged(other) == Ok::<LengthFacet, &'static str>(*final(self)),
                Err(e) => e matches FacetError::ConflictingFacet(why) && old(self).merged(other)
                    == Err::<LengthFacet, &'static str>(why) && *final(self) == *old(self),
            },
    {
        let current = *self;
        let next = match (current, other) {
            (LengthFacet::Unbounded, LengthFacet::MinMaxLength(min, max)) => {
                if min > max {
                    return Err(
                        FacetError::ConflictingFacet("minLength greater than maxLength"),
                    );
                }
                other
            },
            (LengthFacet::Unbounded, _) => other,
            (_, LengthFacet::Unbounded) => current,
            (_, LengthFacet::Length(_)) => {
                return Err(FacetError::ConflictingFacet("length"));
            },
            (LengthFacet::Length(_), _) => {
                return Err(FacetError::ConflictingFacet("length"));
            },
            (LengthFacet::MinLength(min), LengthFacet::MaxLength(max)) => {
                if min > max {
                    return Err(
                        FacetError::ConflictingFacet("minLength greater than maxLength"),
                    );
                }
                LengthFacet::MinMaxLength(min, max)
            },
            (LengthFacet::MaxLength(max), LengthFacet::MinLength(min)) => {
                if min > max {
                    return Err(
                        FacetError::ConflictingFacet("minLength greater than maxLength"),
                    );
                }
                LengthFacet::MinMaxLength(min, max)
            },
            (LengthFacet::MaxLength(_), _) => {
                return Err(FacetError::ConflictingFacet("maxLength"));
            },
            (LengthFacet::MinMaxLength(_, _), LengthFacet::MaxLength(_)) => {
                return Err(FacetError::ConflictingFacet("maxLength"));
            },
            (_, _) => {
                return Err(FacetError::ConflictingFacet("minLength"));
            },
        };
        *self = next;
        Ok(())
    }
}

/// The number that a facet value stands for.
pub enum Number {
    /// A machine integer.
    Int(int),
    /// A decimal: sign, digits (least significant first) and scale.
    Dec(bool, Seq<u8>, int),
}

/// `a <= b`, for two numbers of one kind.
pub open spec fn number_le(a: Number, b: Number) -> bool {
    match (a, b) {
        (Number::Int(x), Number::Int(y)) => x <= y,
        (Number::Dec(an, ad, asc), Number::Dec(bn, bd, bsc)) => decimal_le(an, ad, asc, bn, bd, bsc),
        _ => false,
    }
}

/// A value that bounds can be stated of.
pub trait FacetValue: Sized {
    /// What a value has to satisfy before it is compared.
    spec fn valid(&self) -> bool;

    /// The number that the value stands for.
    spec fn number(&self) -> Number;

    /// The number that a text denotes in this type, if it denotes one.
    spec fn read(text: Seq<char>) -> Option<Number>;

    /// `self <= other`.
    fn at_most(&self, other: &Self) -> (r: bool)
        requires
            self.valid(),
            other.valid(),
        ensures
            r == number_le(self.number(), other.number()),
    ;

    /// Reads a value from its text.
    fn parse(text: &str) -> (r: Option<Self>)
        ensures
            match r {
                Some(v) => v.valid() && Self::read(text@) == Some(v.number()),
                None => Self::read(text@) is None,
            },
    ;

    /// Whether the two values stand for the same number, written the same
    /// way.
    fn alike(&self, other: &Self) -> (r: bool)
        ensures
            r == (self.number() == other.number()),
    ;
}

/// `b` is `a` plus one.
pub open spec fn follows(a: Number, b: Number) -> bool {
    match (a, b) {
        (Number::Int(x), Number::Int(y)) => y == x + 1,
        (Number::Dec(an, ad, asc), Number::Dec(bn, bd, bsc)) => {
            let to = if asc >= bsc && asc >= 0 {
                asc
            } else if bsc >= 0 {
                bsc
            } else {
                0
            };
            scaled(bn, bd, bsc, to) == scaled(an, ad, asc, to) + pow10(to as nat)
        },
        _ => false,
    }
}

/// A value with a successor and a predecessor: an integer.
pub trait Stepped: FacetValue {
    /// Whether the value plus one is a value of the type.
    spec fn has_next(&self) -> bool;

    /// Whether the value minus one is a value of the type.
    spec fn has_prev(&self) -> bool;

    /// The value plus one.
    fn next(&self) -> (r: Self)
        requires
            self.valid(),
            self.has_next(),
        ensures
            r.valid(),
            follows(self.number(), r.number()),
    ;

    /// The value minus one.
    fn prev(&self) -> (r: Self)
        requires
            self.valid(),
            self.has_prev(),
        ensures
            r.valid(),
            follows(r.number(), self.number()),
    ;

    /// The value itself.
    fn same(&self) -> (r: Self)
        requires
            self.valid(),
        ensures
            r.valid(),
            r.number() == self.number(),
    ;
}

impl FacetValue for i8 {
    open spec fn valid(&self) -> bool {
        true
    }

    open spec fn number(&self) -> Number {
        Number::Int(*self as int)
    }

    open spec fn read(text: Seq<char>) -> Option<Number> {
        match integer_in(text, true, i8::MIN as int, i8::MAX as int) {
            Some(v) => Some(Number::Int(v)),
            None => None,
        }
    }

    fn at_most(&self, other: &i8) -> (r: bool) {
        *self <= *other
    }

    fn parse(text: &str) -> (r: Option<i8>) {
        parse_i8(text)
    }

    fn alike(&self, other: &i8) -> (r: bool) {
        *self == *other
    }
}

impl Stepped for i8 {
    open spec fn has_next(&self) -> bool {
        *self < i8::MAX
    }

    open spec fn has_prev(&self) -> bool {
        *self > i8::MIN
    }

    fn next(&self) -> (r: i8) {
        *self + 1
    }

    fn prev(&self) -> (r: i8) {
        *self - 1
    }

    fn same(&self) -> (r: i8) {
        *self
    }
}

impl FacetValue for u8 {
    open spec fn valid(&self) -> bool {
        true
    }

    open spec fn number(&self) -> Number {
        Number::Int(*self as int)
    }

    open spec fn read(text: Seq<char>) -> Option<Number> {
        match integer_in(text, false, u8::MIN as int, u8::MAX as int) {
            Some(v) => Some(Number::Int(v)),
            None => None,
        }
    }

    fn at_most(&self, other: &u8) -> (r: bool) {
        *self <= *other
    }

    fn parse(text: &str) -> (r: Option<u8>) {
        parse_u8(text)
    }

    fn alike(&self, other: &u8) -> (r: bool) {
        *self == *other
    }
}

impl Stepped for u8 {
    open spec fn has_next(&self) -> bool {
        *self < u8::MAX
    }

    open spec fn has_prev(&self) -> bool {
        *self > u8::MIN
    }

    fn next(&self) -> (r: u8) {
        *self + 1
    }

    fn prev(&self) -> (r: u8) {
        *self - 1
    }

    fn same(&self) -> (r: u8) {
        *self
    }
}

impl FacetValue for i16 {
    open spec fn valid(&self) -> bool {
        true
    }

    open spec fn number(&self) -> Number {
        Number::Int(*self as int)
    }

    open spec fn read(text: Seq<char>) -> Option<Number> {
        match integer_in(text, true, i16::MIN as int, i16::MAX as int) {
            Some(v) => Some(Number::Int(v)),
            None => None,
        }
    }

    fn at_most(&self, other: &i16) -> (r: bool) {
        *self <= *other
    }

    fn parse(text: &str) -> (r: Option<i16>) {
        parse_i16(text)
    }

    fn alike(&self, other: &i16) -> (r: bool) {
        *self == *other
    }
}

impl Stepped for i16 {
    open spec fn has_next(&self) -> bool {
        *self < i16::MAX
    }

    open spec fn has_prev(&self) -> bool {
        *self > i16::MIN
    }

    fn next(&self) -> (r: i16) {
        *self + 1
    }

    fn prev(&self) -> (r: i16) {
        *self - 1
    }

    fn same(&self) -> (r: i16) {
        *self
    }
}

impl FacetValue for u16 {
    open spec fn valid(&self) -> bool {
        true
    }

    open spec fn number(&self) -> Number {
        Number::Int(*self as int)
    }

    open spec fn read(text: Seq<char>) -> Option<Number> {
        match integer_in(text, false, u16::MIN as int, u16::MAX as int) {
            Some(v) => Some(Number::Int(v)),
            None => None,
        }
    }

    fn at_most(&self, other: &u16) -> (r: bool) {
        *self <= *other
    }

    fn parse(text: &str) -> (r: Option<u16>) {
        parse_u16(text)
    }

    fn alike(&self, other: &u16) -> (r: bool) {
        *self == *other
    }
}

impl Stepped for u16 {
    open spec fn has_next(&self) -> bool {
        *self < u16::MAX
    }

    open spec fn has_prev(&self) -> bool {
        *self > u16::MIN
    }

    fn next(&self) -> (r: u16) {
        *self + 1
    }

    fn prev(&self) -> (r: u16) {
        *self - 1
    }

    fn same(&self) -> (r: u16) {
        *self
    }
}

impl FacetValue for i32 {
    open spec fn valid(&self) -> bool {
        true
    }

    open spec fn number(&self) -> Number {
        Number::Int(*self as int)
    }

    open spec fn read(text: Seq<char>) -> Option<Number> {
        match integer_in(text, true, i32::MIN as int, i32::MAX as int) {
            Some(v) => Some(Number::Int(v)),
            None => None,
        }
    }

    fn at_most(&self, other: &i32) -> (r: bool) {
        *self <= *other
    }

    fn parse(text: &str) -> (r: Option<i32>) {
        parse_i32(text)
    }

    fn alike(&self, other: &i32) -> (r: bool) {
        *self == *other
    }
}

impl Stepped for i32 {
    open spec fn has_next(&self) -> bool {
        *self < i32::MAX
    }

    open spec fn has_prev(&self) -> bool {
        *self > i32::MIN
    }

    fn next(&self) -> (r: i32) {
        *self + 1
    }

    fn prev(&self) -> (r: i32) {
        *self - 1
    }

    fn same(&self) -> (r: i32) {
        *self
    }
}

impl FacetValue for u32 {
    open spec fn valid(&self) -> bool {
        true
    }

    open spec fn number(&self) -> Number {
        Number::Int(*self as int)
    }

    open spec fn read(text: Seq<char>) -> Option<Number> {
        match integer_in(text, false, u32::MIN as int, u32::MAX as int) {
            Some(v) => Some(Number::Int(v)),
            None => None,
        }
    }

    fn at_most(&self, other: &u32) -> (r: bool) {
        *self <= *other
    }

    fn parse(text: &str) -> (r: Option<u32>) {
        parse_u32(text)
    }

    fn alike(&self, other: &u32) -> (r: bool) {
        *self == *other
    }
}

impl Stepped for u32 {
    open spec fn has_next(&self) -> bool {
        *self < u32::MAX
    }

    open spec fn has_prev(&self) -> bool {
        *self > u32::MIN
    }

    fn next(&self) -> (r: u32) {
        *self + 1
    }

    fn prev(&self) -> (r: u32) {
        *self - 1
    }

    fn same(&self) -> (r: u32) {
        *self
    }
}

impl FacetValue for i64 {
    open spec fn valid(&self) -> bool {
        true
    }

    open spec fn number(&self) -> Number {
        Number::Int(*self as int)
    }

    open spec fn read(text: Seq<char>) -> Option<Number> {
        match integer_in(text, true, i64::MIN as int, i64::MAX as int) {
            Some(v) => Some(Number::Int(v)),
            None => None,
        }
    }

    fn at_most(&self, other: &i64) -> (r: bool) {
        *self <= *other
    }

    fn parse(text: &str) -> (r: Option<i64>) {
        parse_i64(text)
    }

    fn alike(&self, other: &i64) -> (r: bool) {
        *self == *other
    }
}

impl Stepped for i64 {
    open spec fn has_next(&self) -> bool {
        *self < i64::MAX
    }

    open spec fn has_prev(&self) -> bool {
        *self > i64::MIN
    }

    fn next(&self) -> (r: i64) {
        *self + 1
    }

    fn prev(&self) -> (r: i64) {
        *self - 1
    }

    fn same(&self) -> (r: i64) {
        *self
    }
}

impl FacetValue for u64 {
    open spec fn valid(&self) -> bool {
        true
    }

    open spec fn number(&self) -> Number {
        Number::Int(*self as int)
    }

    open spec fn read(text: Seq<char>) -> Option<Number> {
        match integer_in(text, false, u64::MIN as int, u64::MAX as int) {
            Some(v) => Some(Number::Int(v)),
            None => None,
        }
    }

    fn at_most(&self, other: &u64) -> (r: bool) {
        *self <= *other
    }

    fn parse(text: &str) -> (r: Option<u64>) {
        parse_u64(text)
    }

    fn alike(&self, other: &u64) -> (r: bool) {
        *self == *other
    }
}

impl Stepped for u64 {
    open spec fn has_next(&self) -> bool {
        *self < u64::MAX
    }

    open spec fn has_prev(&self) -> bool {
        *self > u64::MIN
    }

    fn next(&self) -> (r: u64) {
        *self + 1
    }

    fn prev(&self) -> (r: u64) {
        *self - 1
    }

    fn same(&self) -> (r: u64) {
        *self
    }
}

impl FacetValue for Decimal {
    open spec fn valid(&self) -> bool {
        self.wf()
    }

    open spec fn number(&self) -> Number {
        Number::Dec(self.negative, self.digits@, self.scale as int)
    }

    open spec fn read(text: Seq<char>) -> Option<Number> {
        match decimal_text(text) {
            Some((negative, digits, scale)) => Some(Number::Dec(negative, digits, scale as int)),
            None => None,
        }
    }

    fn at_most(&self, other: &Decimal) -> (r: bool) {
        self.compare_le(other)
    }

    fn parse(text: &str) -> (r: Option<Decimal>) {
        Decimal::parse_decimal(text)
    }

    fn alike(&self, other: &Decimal) -> (r: bool) {
        self.same(other)
    }
}

impl FacetValue for Integer {
    open spec fn valid(&self) -> bool {
        self.0.wf()
    }

    open spec fn number(&self) -> Number {
        Number::Dec(self.0.negative, self.0.digits@, self.0.scale as int)
    }

    open spec fn read(text: Seq<char>) -> Option<Number> {
        match integer_text(text) {
            Some((negative, digits)) => Some(Number::Dec(negative, digits, 0)),
            None => None,
        }
    }

    fn at_most(&self, other: &Integer) -> (r: bool) {
        self.0.compare_le(&other.0)
    }

    fn parse(text: &str) -> (r: Option<Integer>) {
        match Decimal::parse_integer(text) {
            Some(d) => Some(Integer(d)),
            None => None,
        }
    }

    fn alike(&self, other: &Integer) -> (r: bool) {
        self.0.same(&other.0)
    }
}

impl FacetValue for Natural {
    open spec fn valid(&self) -> bool {
        self.0.wf()
    }

    open spec fn number(&self) -> Number {
        Number::Dec(self.0.negative, self.0.digits@, self.0.scale as int)
    }

    open spec fn read(text: Seq<char>) -> Option<Number> {
        match natural_text(text) {
            Some(digits) => Some(Number::Dec(false, digits, 0)),
            None => None,
        }
    }

    fn at_most(&self, other: &Natural) -> (r: bool) {
        self.0.compare_le(&other.0)
    }

    fn parse(text: &str) -> (r: Option<Natural>) {
        match Decimal::parse_natural(text) {
            Some(d) => Some(Natural(d)),
            None => None,
        }
    }

    fn alike(&self, other: &Natural) -> (r: bool) {
        self.0.same(&other.0)
    }
}

impl FacetValue for Real {
    open spec fn valid(&self) -> bool {
        self.0.wf()
    }

    open spec fn number(&self) -> Number {
        Number::Dec(self.0.negative, self.0.digits@, self.0.scale as int)
    }

    /// A text denotes a floating-point number where it has the lexical form
    /// of one and denotes a decimal: not `NaN`, and nothing infinite.
    open spec fn read(text: Seq<char>) -> Option<Number> {
        if float_lexical(text) {
            <Decimal as FacetValue>::read(text)
        } else {
            None
        }
    }

    fn at_most(&self, other: &Real) -> (r: bool) {
        self.0.compare_le(&other.0)
    }

    fn parse(text: &str) -> (r: Option<Real>) {
        if is_float_lexical(text) {
            match Decimal::parse_decimal(text) {
                Some(d) => Some(Real(d)),
                None => None,
            }
        } else {
            None
        }
    }

    fn alike(&self, other: &Real) -> (r: bool) {
        self.0.same(&other.0)
    }
}

impl Stepped for Integer {
    open spec fn has_next(&self) -> bool {
        self.0.scale == 0
    }

    open spec fn has_prev(&self) -> bool {
        self.0.scale == 0
    }

    fn next(&self) -> (r: Integer) {
        let one = Integer(Decimal::unit(false, 1));
        let r = self.plus(&one);
        proof {
            lemma_unit(1);
            lemma_scaled_integer(self.0.negative, self.0.digits@);
            lemma_scaled_integer(r.0.negative, r.0.digits@);
        }
        r
    }

    fn prev(&self) -> (r: Integer) {
        let one = Integer(Decimal::unit(false, 1));
        let r = self.minus(&one);
        proof {
            lemma_unit(1);
            lemma_scaled_integer(self.0.negative, self.0.digits@);
            lemma_scaled_integer(r.0.negative, r.0.digits@);
        }
        r
    }

    fn same(&self) -> (r: Integer) {
        Integer(self.0.copy())
    }
}

impl Stepped for Natural {
    open spec fn has_next(&self) -> bool {
        self.0.scale == 0 && !self.0.negative
    }

    open spec fn has_prev(&self) -> bool {
        self.0.scale == 0 && !self.0.negative && unscaled(self.0.digits@) > 0
    }

    fn next(&self) -> (r: Natural) {
        let one = Natural(Decimal::unit(false, 1));
        let r = self.plus(&one);
        proof {
            lemma_unit(1);
            lemma_scaled_integer(self.0.negative, self.0.digits@);
            lemma_scaled_integer(r.0.negative, r.0.digits@);
        }
        r
    }

    fn prev(&self) -> (r: Natural) {
        let one = Natural(Decimal::unit(false, 1));
        proof {
            lemma_unit(1);
        }
        let r = self.minus(&one);
        proof {
            lemma_unit(1);
            lemma_scaled_integer(self.0.negative, self.0.digits@);
            lemma_scaled_integer(r.0.negative, r.0.digits@);
        }
        r
    }

    fn same(&self) -> (r: Natural) {
        Natural(self.0.copy())
    }
}

/// A lower bound.
#[derive(Debug)]
pub enum Min<T: FacetValue> {
    Unbounded,
    Inclusive(T),
    Exclusive(T),
}

/// An upper bound.
#[derive(Debug)]
pub enum Max<T: FacetValue> {
    Unbounded,
    Inclusive(T),
    Exclusive(T),
}

impl<T: FacetValue> Min<T> {
    pub open spec fn wf(&self) -> bool {
        match self {
            Min::Unbounded => true,
            Min::Inclusive(min) => min.valid(),
            Min::Exclusive(min) => min.valid(),
        }
    }

    /// Whether `v` is above the bound.
    pub open spec fn admits(&self, v: &T) -> bool {
        match self {
            Min::Unbounded => true,
            Min::Inclusive(min) => number_le(min.number(), v.number()),
            Min::Exclusive(min) => !number_le(v.number(), min.number()),
        }
    }

    pub fn is_valid(&self, v: &T) -> (r: bool)
        requires
            self.wf(),
            v.valid(),
        ensures
            r == self.admits(v),
    {
        match self {
            Min::Unbounded => true,
            Min::Inclusive(min) => min.at_most(v),
            Min::Exclusive(min) => !v.at_most(min),
        }
    }
}

impl<T: FacetValue> Max<T> {
    pub open spec fn wf(&self) -> bool {
        match self {
            Max::Unbounded => true,
            Max::Inclusive(max) => max.valid(),
            Max::Exclusive(max) => max.valid(),
        }
    }

    /// Whether `v` is below the bound.
    pub open spec fn admits(&self, v: &T) -> bool {
        match self {
            Max::Unbounded => true,
            Max::Inclusive(max) => number_le(v.number(), max.number()),
            Max::Exclusive(max) => !number_le(max.number(), v.number()),
        }
    }

    pub fn is_valid(&self, v: &T) -> (r: bool)
        requires
            self.wf(),
            v.valid(),
        ensures
            r == self.admits(v),
    {
        match self {
            Max::Unbounded => true,
            Max::Inclusive(max) => v.at_most(max),
            Max::Exclusive(max) => !max.at_most(v),
        }
    }
}

/// A pair of bounds on the values of a numeric type.
#[derive(Debug)]
pub struct MinMaxFacet<T: FacetValue> {
    pub min: Min<T>,
    pub max: Max<T>,
}

impl<T: FacetValue> Default for MinMaxFacet<T> {
    fn default() -> (r: Self)
        ensures
            r.min is Unbounded,
            r.max is Unbounded,
    {
        MinMaxFacet { min: Min::Unbounded, max: Max::Unbounded }
    }
}

/// The number of a value, if there is one.
pub open spec fn number_of<T: FacetValue>(v: Option<T>) -> Option<Number> {
    match v {
        Some(v) => Some(v.number()),
        None => None,
    }
}

impl Limit {
    /// `r` is the smallest integer that this lower bound admits.
    pub open spec fn lowest_is(self, r: Option<Number>) -> bool {
        match self {
            Limit::Unbounded => r is None,
            Limit::Inclusive(min) => r == Some(min),
            Limit::Exclusive(min) => r matches Some(v) && follows(min, v),
        }
    }

    /// `r` is the largest integer that this upper bound admits.
    pub open spec fn highest_is(self, r: Option<Number>) -> bool {
        match self {
            Limit::Unbounded => r is None,
            Limit::Inclusive(max) => r == Some(max),
            Limit::Exclusive(max) => r matches Some(v) && follows(v, max),
        }
    }
}

impl<T: Stepped + Copy> MinMaxFacet<T> {
    /// The smallest value that the lower bound admits, if there is a bound.
    pub fn min(&self) -> (r: Option<T>)
        requires
            self.wf(),
            self.min matches Min::Exclusive(m) ==> m.has_next(),
        ensures
            self@.min.lowest_is(number_of(r)),
            r matches Some(v) ==> v.valid(),
    {
        match &self.min {
            Min::Unbounded => None,
            Min::Inclusive(min) => Some(*min),
            Min::Exclusive(min) => Some(min.next()),
        }
    }

    /// The largest value that the upper bound admits, if there is a bound.
    pub fn max(&self) -> (r: Option<T>)
        requires
            self.wf(),
            self.max matches Max::Exclusive(m) ==> m.has_prev(),
        ensures
            self@.max.highest_is(number_of(r)),
            r matches Some(v) ==> v.valid(),
    {
        match &self.max {
            Max::Unbounded => None,
            Max::Inclusive(max) => Some(*max),
            Max::Exclusive(max) => Some(max.prev()),
        }
    }
}

impl<T: Stepped> MinMaxFacet<T> {
    /// As `min`, for values that are not `Copy`.
    pub fn min_cloned(&self) -> (r: Option<T>)
        requires
            self.wf(),
            self.min matches Min::Exclusive(m) ==> m.has_next(),
        ensures
            self@.min.lowest_is(number_of(r)),
            r matches Some(v) ==> v.valid(),
    {
        match &self.min {
            Min::Unbounded => None,
            Min::Inclusive(min) => Some(min.same()),
            Min::Exclusive(min) => Some(min.next()),
        }
    }

    /// As `max`, for values that are not `Copy`.
    pub fn max_cloned(&self) -> (r: Option<T>)
        requires
            self.wf(),
            self.max matches Max::Exclusive(m) ==> m.has_prev(),
        ensures
            self@.max.highest_is(number_of(r)),
            r matches Some(v) ==> v.valid(),
    {
        match &self.max {
            Max::Unbounded => None,
            Max::Inclusive(max) => Some(max.same()),
            Max::Exclusive(max) => Some(max.prev()),
        }
    }
}

/// One side of a pair of bounds, over the numbers that the values stand for.
pub enum Limit {
    Unbounded,
    Inclusive(Number),
    Exclusive(Number),
}

/// A pair of bounds, over the numbers that the values stand for.
pub struct Bounds {
    pub min: Limit,
    pub max: Limit,
}

impl Bounds {
    pub open spec fn unbounded() -> Bounds {
        Bounds { min: Limit::Unbounded, max: Limit::Unbounded }
    }

    /// Whether `v` lies within both bounds.
    pub open spec fn admits(self, v: Number) -> bool {
        &&& match self.min {
            Limit::Unbounded => true,
            Limit::Inclusive(min) => number_le(min, v),
            Limit::Exclusive(min) => !number_le(v, min),
        }
        &&& match self.max {
            Limit::Unbounded => true,
            Limit::Inclusive(max) => number_le(v, max),
            Limit::Exclusive(max) => !number_le(max, v),
        }
    }

    /// Why `val` cannot become a lower bound beside the upper bound, if it
    /// cannot: it lies above the upper bound, or it meets it and one of the
    /// two bounds is exclusive, so that no number would lie between them.
    pub open spec fn min_conflict(self, val: Number, exclusive: bool) -> Option<&'static str> {
        match self.max {
            Limit::Unbounded => None,
            Limit::Inclusive(max) => if (if exclusive {
                number_le(max, val)
            } else {
                !number_le(val, max)
            }) {
                Some("minInclusive conflicts with maxInclusive")
            } else {
                None
            },
            Limit::Exclusive(max) => if number_le(max, val) {
                Some("minInclusive conflicts with maxExclusive")
            } else {
                None
            },
        }
    }

    /// Why `val` cannot become an upper bound beside the lower bound, if it
    /// cannot: it lies below the lower bound, or it meets it and one of the
    /// two bounds is exclusive.
    pub open spec fn max_conflict(self, val: Number, exclusive: bool) -> Option<&'static str> {
        match self.min {
            Limit::Unbounded => None,
            Limit::Inclusive(min) => if (if exclusive {
                number_le(val, min)
            } else {
                !number_le(min, val)
            }) {
                Some("minInclusive conflicts with maxInclusive")
            } else {
                None
            },
            Limit::Exclusive(min) => if number_le(val, min) {
                Some("minInclusive conflicts with maxExclusive")
            } else {
                None
            },
        }
    }

    /// The lower bound does not lie above the upper one, and the two do not
    /// meet where one of them is exclusive.
    pub open spec fn consistent(self) -> bool {
        match (self.min, self.max) {
            (Limit::Inclusive(min), Limit::Inclusive(max)) => number_le(min, max),
            (Limit::Inclusive(min), Limit::Exclusive(max)) => !number_le(max, min),
            (Limit::Exclusive(min), Limit::Inclusive(max)) => !number_le(max, min),
            (Limit::Exclusive(min), Limit::Exclusive(max)) => !number_le(max, min),
            _ => true,
        }
    }

    /// The bounds with `minInclusive = val` added, or the conflict.
    pub open spec fn with_min_inclusive(self, val: Number) -> Result<Bounds, &'static str> {
        match self.min_conflict(val, false) {
            Some(why) => Err(why),
            None => match self.min {
                Limit::Unbounded => Ok(Bounds { min: Limit::Inclusive(val), max: self.max }),
                Limit::Inclusive(_) => Err("minInclusive"),
                Limit::Exclusive(_) => Err("minInclusive conflicts with minExclusive"),
            },
        }
    }

    /// The bounds with `minExclusive = val` added, or the conflict.
    pub open spec fn with_min_exclusive(self, val: Number) -> Result<Bounds, &'static str> {
        match self.min_conflict(val, true) {
            Some(why) => Err(why),
            None => match self.min {
                Limit::Unbounded => Ok(Bounds { min: Limit::Exclusive(val), max: self.max }),
                Limit::Inclusive(_) => Err("minExclusive conflicts with minInclusive"),
                Limit::Exclusive(_) => Err("minExclusive"),
            },
        }
    }

    /// The bounds with `maxInclusive = val` added, or the conflict.
    pub open spec fn with_max_inclusive(self, val: Number) -> Result<Bounds, &'static str> {
        match self.max_conflict(val, false) {
            Some(why) => Err(why),
            None => match self.max {
                Limit::Unbounded => Ok(Bounds { min: self.min, max: Limit::Inclusive(val) }),
                Limit::Inclusive(_) => Err("maxInclusive"),
                Limit::Exclusive(_) => Err("maxInclusive conflicts with maxExclusive"),
            },
        }
    }

    /// The bounds with `maxExclusive = val` added, or the conflict.
    pub open spec fn with_max_exclusive(self, val: Number) -> Result<Bounds, &'static str> {
        match self.max_conflict(val, true) {
            Some(why) => Err(why),
            None => match self.max {
                Limit::Unbounded => Ok(Bounds { min: self.min, max: Limit::Exclusive(val) }),
                Limit::Inclusive(_) => Err("maxExclusive conflicts with maxInclusive"),
                Limit::Exclusive(_) => Err("maxExclusive"),
            },
        }
    }
}

impl<T: FacetValue> View for MinMaxFacet<T> {
    type V = Bounds;

    open spec fn view(&self) -> Bounds {
        Bounds {
            min: match self.min {
                Min::Unbounded => Limit::Unbounded,
                Min::Inclusive(v) => Limit::Inclusive(v.number()),
                Min::Exclusive(v) => Limit::Exclusive(v.number()),
            },
            max: match self.max {
                Max::Unbounded => Limit::Unbounded,
                Max::Inclusive(v) => Limit::Inclusive(v.number()),
                Max::Exclusive(v) => Limit::Exclusive(v.number()),
            },
        }
    }
}

impl<T: FacetValue> MinMaxFacet<T> {
    pub open spec fn wf(&self) -> bool {
        self.min.wf() && self.max.wf()
    }

    /// Whether the two pairs of bounds are the same: each side of the same
    /// form, with the same number written the same way.
    pub fn same(&self, other: &MinMaxFacet<T>) -> (r: bool)
        ensures
            r == (self@ == other@),
    {
        let min = match (&self.min, &other.min) {
            (Min::Unbounded, Min::Unbounded) => true,
            (Min::Inclusive(a), Min::Inclusive(b)) => a.alike(b),
            (Min::Exclusive(a), Min::Exclusive(b)) => a.alike(b),
            _ => false,
        };
        let max = match (&self.max, &other.max) {
            (Max::Unbounded, Max::Unbounded) => true,
            (Max::Inclusive(a), Max::Inclusive(b)) => a.alike(b),
            (Max::Exclusive(a), Max::Exclusive(b)) => a.alike(b),
            _ => false,
        };
        min && max
    }

    /// Whether `v` lies within both bounds.
    pub open spec fn admits(&self, v: &T) -> bool {
        self@.admits(v.number())
    }

    /// Whether either bound is set.
    pub fn bounded(&self) -> (r: bool)
        ensures
            r == !(self.min is Unbounded && self.max is Unbounded),
    {
        !(matches!(self.min, Min::Unbounded) && matches!(self.max, Max::Unbounded))
    }

    fn check_min(&self, val: &T, exclusive: bool) -> (r: Option<&'static str>)
        requires
            self.wf(),
            val.valid(),
        ensures
            r == self@.min_conflict(val.number(), exclusive),
    {
        match &self.max {
            Max::Unbounded => None,
            Max::Inclusive(max) => {
                let meets = if exclusive {
                    max.at_most(val)
                } else {
                    !val.at_most(max)
                };
                if meets {
                    Some("minInclusive conflicts with maxInclusive")
                } else {
                    None
                }
            },
            Max::Exclusive(max) => if max.at_most(val) {
                Some("minInclusive conflicts with maxExclusive")
            } else {
                None
            },
        }
    }

    fn check_max(&self, val: &T, exclusive: bool) -> (r: Option<&'static str>)
        requires
            self.wf(),
            val.valid(),
        ensures
            r == self@.max_conflict(val.number(), exclusive),
    {
        match &self.min {
            Min::Unbounded => None,
            Min::Inclusive(min) => {
                let meets = if exclusive {
                    val.at_most(min)
                } else {
                    !min.at_most(val)
                };
                if meets {
                    Some("minInclusive conflicts with maxInclusive")
                } else {
                    None
                }
            },
            Min::Exclusive(min) => if val.at_most(min) {
                Some("minInclusive conflicts with maxExclusive")
            } else {
                None
            },
        }
    }

    /// Sets the inclusive lower bound. On a conflict the facet stays as it
    /// was.
    pub fn min_inclusive(&mut self, val: T) -> (r: Result<(), FacetError>)
        requires
            old(self).wf(),
            val.valid(),
        ensures
            final(self).wf(),
            match r {
                Ok(()) => old(self)@.with_min_inclusive(val.number()) == Ok::<Bounds, &'static str>(
                    final(self)@,
                ),
                Err(e) => e matches FacetError::ConflictingFacet(why) && old(self)@.with_min_inclusive(
                    val.number(),
                ) == Err::<Bounds, &'static str>(why) && *final(self) == *old(self),
            },
    {
        if let Some(why) = self.check_min(&val, false) {
            return Err(FacetError::ConflictingFacet(why));
        }
        match &self.min {
            Min::Unbounded => {
                self.min = Min::Inclusive(val);
                Ok(())
            },
            Min::Inclusive(_) => Err(FacetError::ConflictingFacet("minInclusive")),
            Min::Exclusive(_) => Err(
                FacetError::ConflictingFacet("minInclusive conflicts with minExclusive"),
            ),
        }
    }

    /// Sets the exclusive lower bound. On a conflict the facet stays as it
    /// was.
    pub fn min_exclusive(&mut self, val: T) -> (r: Result<(), FacetError>)
        requires
            old(self).wf(),
            val.valid(),
        ensures
            final(self).wf(),
            match r {
                Ok(()) => old(self)@.with_min_exclusive(val.number()) == Ok::<Bounds, &'static str>(
                    final(self)@,
                ),
                Err(e) => e matches FacetError::ConflictingFacet(why) && old(self)@.with_min_exclusive(
                    val.number(),
                ) == Err::<Bounds, &'static str>(why) && *final(self) == *old(self),
            },
    {
        if let Some(why) = self.check_min(&val, true) {
            return Err(FacetError::ConflictingFacet(why));
        }
        match &self.min {
            Min::Unbounded => {
                self.min = Min::Exclusive(val);
                Ok(())
            },
            Min::Inclusive(_) => Err(
                FacetError::ConflictingFacet("minExclusive conflicts with minInclusive"),
            ),
            Min::Exclusive(_) => Err(FacetError::ConflictingFacet("minExclusive")),
        }
    }

    /// Sets the inclusive upper bound. On a conflict the facet stays as it
    /// was.
    pub fn max_inclusive(&mut self, val: T) -> (r: Result<(), FacetError>)
        requires
            old(self).wf(),
            val.valid(),
        ensures
            final(self).wf(),
            match r {
                Ok(()) => old(self)@.with_max_inclusive(val.number()) == Ok::<Bounds, &'static str>(
                    final(self)@,
                ),
                Err(e) => e matches FacetError::ConflictingFacet(why) && old(self)@.with_max_inclusive(
                    val.number(),
                ) == Err::<Bounds, &'static str>(why) && *final(self) == *old(self),
            },
    {
        if let Some(why) = self.check_max(&val, false) {
            return Err(FacetError::ConflictingFacet(why));
        }
        match &self.max {
            Max::Unbounded => {
                self.max = Max::Inclusive(val);
                Ok(())
            },
            Max::Inclusive(_) => Err(FacetError::ConflictingFacet("maxInclusive")),
            Max::Exclusive(_) => Err(
                FacetError::ConflictingFacet("maxInclusive conflicts with maxExclusive"),
            ),
        }
    }

    /// Sets the exclusive upper bound. On a conflict the facet stays as it
    /// was.
    pub fn max_exclusive(&mut self, val: T) -> (r: Result<(), FacetError>)
        requires
            old(self).wf(),
            val.valid(),
        ensures
            final(self).wf(),
            match r {
                Ok(()) => old(self)@.with_max_exclusive(val.number()) == Ok::<Bounds, &'static str>(
                    final(self)@,
                ),
                Err(e) => e matches FacetError::ConflictingFacet(why) && old(self)@.with_max_exclusive(
                    val.number(),
                ) == Err::<Bounds, &'static str>(why) && *final(self) == *old(self),
            },
    {
        if let Some(why) = self.check_max(&val, true) {
            return Err(FacetError::ConflictingFacet(why));
        }
        match &self.max {
            Max::Unbounded => {
                self.max = Max::Exclusive(val);
                Ok(())
            },
            Max::Inclusive(_) => Err(
                FacetError::ConflictingFacet("maxExclusive conflicts with maxInclusive"),
            ),
            Max::Exclusive(_) => Err(FacetError::ConflictingFacet("maxExclusive")),
        }
    }

    /// Whether `v` lies within both bounds.
    pub fn is_valid(&self, v: &T) -> (r: bool)
        requires
            self.wf(),
            v.valid(),
        ensures
            r == self@.admits(v.number()),
    {
        self.min.is_valid(v) && self.max.is_valid(v)
    }
}

} // verus!
