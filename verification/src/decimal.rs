//! Unbounded integers and decimals, held as decimal digits.

use vstd::prelude::*;
use std::str::FromStr;
use bigdecimal::BigDecimal;
use num_bigint::{BigInt, BigUint, Sign};

verus! {

/// A decimal number: `digits`, least significant first, with `scale` of
/// them after the decimal point (a negative scale appends zeros).
#[derive(Debug)]
pub struct Decimal {
    pub negative: bool,
    pub digits: Vec<u8>,
    pub scale: i64,
}

/// An unbounded integer: a decimal that was read as an integer.
#[derive(Debug)]
pub struct Integer(pub Decimal);

/// An unbounded integer that was read without a minus sign.
#[derive(Debug)]
pub struct Natural(pub Decimal);

/// A floating-point number, held as the decimal that its text denotes.
#[derive(Debug)]
pub struct Real(pub Decimal);

pub open spec fn pow10(n: nat) -> nat
    decreases n,
{
    if n == 0 {
        1
    } else {
        10 * pow10((n - 1) as nat)
    }
}

/// The number that digits denote, least significant first.
pub open spec fn unscaled(d: Seq<u8>) -> nat
    decreases d.len(),
{
    if d.len() == 0 {
        0
    } else {
        d[0] as nat + 10 * unscaled(d.drop_first())
    }
}

/// Every digit is below ten.
pub open spec fn decimal_digits(d: Seq<u8>) -> bool {
    forall|i: int| 0 <= i < d.len() ==> #[trigger] d[i] < 10
}

/// The digits with their sign, times ten to the power `to - scale`.
pub open spec fn scaled(negative: bool, digits: Seq<u8>, scale: int, to: int) -> int {
    let m = (unscaled(digits) * pow10((to - scale) as nat)) as int;
    if negative {
        -m
    } else {
        m
    }
}

/// Numeric order of two decimals given by sign, digits and scale.
pub open spec fn decimal_le(
    a_negative: bool,
    a_digits: Seq<u8>,
    a_scale: int,
    b_negative: bool,
    b_digits: Seq<u8>,
    b_scale: int,
) -> bool {
    let to = if a_scale >= b_scale {
        a_scale
    } else {
        b_scale
    };
    scaled(a_negative, a_digits, a_scale, to) <= scaled(b_negative, b_digits, b_scale, to)
}

/// What `BigDecimal::from_str` reads from a text: sign, digits of the
/// unscaled integer, and scale.
pub uninterp spec fn decimal_text(text: Seq<char>) -> Option<(bool, Seq<u8>, i64)>;

/// What `BigInt::from_str` reads from a text: sign and digits.
pub uninterp spec fn integer_text(text: Seq<char>) -> Option<(bool, Seq<u8>)>;

/// What `BigUint::from_str` reads from a text: the digits.
pub uninterp spec fn natural_text(text: Seq<char>) -> Option<Seq<u8>>;

impl Decimal {
    pub open spec fn wf(&self) -> bool {
        decimal_digits(self.digits@)
    }

    /// Numeric `<=`.
    pub open spec fn le_spec(&self, other: &Decimal) -> bool {
        decimal_le(
            self.negative,
            self.digits@,
            self.scale as int,
            other.negative,
            other.digits@,
            other.scale as int,
        )
    }

    /// The integers `-1`, `0` and `1`.
    pub fn unit(negative: bool, digit: u8) -> (r: Decimal)
        requires
            digit < 10,
        ensures
            r.wf(),
            r.negative == negative,
            r.digits@ == seq![digit],
            r.scale == 0,
    {
        let mut digits: Vec<u8> = Vec::new();
        digits.push(digit);
        Decimal { negative, digits, scale: 0 }
    }

    /// `BigDecimal::from_str`, with the value taken apart by
    /// `into_bigint_and_exponent` and `BigInt::to_radix_le(10)`: the result is
    /// the named reading of the text, and its digits are decimal digits.
    #[verifier::external_body]
    pub(crate) fn parse_decimal(text: &str) -> (r: Option<Decimal>)
        ensures
            match r {
                Some(d) => d.wf() && decimal_text(text@) == Some((d.negative, d.digits@, d.scale)),
                None => decimal_text(text@) is None,
            },
    {
        match BigDecimal::from_str(text) {
            Ok(v) => {
                let (n, scale) = v.into_bigint_and_exponent();
                let (sign, digits) = n.to_radix_le(10);
                Some(Decimal { negative: matches!(sign, Sign::Minus), digits, scale })
            },
            Err(_) => None,
        }
    }

    /// `BigInt::from_str`, with the value taken apart by
    /// `BigInt::to_radix_le(10)`: the result is the named reading of the text,
    /// with scale zero, and its digits are decimal digits.
    #[verifier::external_body]
    pub(crate) fn parse_integer(text: &str) -> (r: Option<Decimal>)
        ensures
            match r {
                Some(d) => d.wf() && d.scale == 0 && integer_text(text@) == Some(
                    (d.negative, d.digits@),
                ),
                None => integer_text(text@) is None,
            },
    {
        match BigInt::from_str(text) {
            Ok(n) => {
                let (sign, digits) = n.to_radix_le(10);
                Some(Decimal { negative: matches!(sign, Sign::Minus), digits, scale: 0 })
            },
            Err(_) => None,
        }
    }

    /// `BigUint::from_str`, with the value taken apart by
    /// `BigUint::to_radix_le(10)`: the result is the named reading of the
    /// text, not negative, with scale zero, and its digits are decimal digits.
    #[verifier::external_body]
    pub(crate) fn parse_natural(text: &str) -> (r: Option<Decimal>)
        ensures
            match r {
                Some(d) => d.wf() && d.scale == 0 && !d.negative && natural_text(text@) == Some(
                    d.digits@,
                ),
                None => natural_text(text@) is None,
            },
    {
        match BigUint::from_str(text) {
            Ok(n) => Some(Decimal { negative: false, digits: n.to_radix_le(10), scale: 0 }),
            Err(_) => None,
        }
    }

    /// The `<=` of `BigDecimal`, on two values rebuilt from their digits by
    /// `BigInt::from_radix_le` and `BigDecimal::new`: it compares the two
    /// numbers.
    #[verifier::external_body]
    pub(crate) fn compare_le(&self, other: &Decimal) -> (r: bool)
        requires
            self.wf(),
            other.wf(),
        ensures
            r == self.le_spec(other),
    {
        let sa = if self.negative { Sign::Minus } else { Sign::Plus };
        let sb = if other.negative { Sign::Minus } else { Sign::Plus };
        let a = BigDecimal::new(BigInt::from_radix_le(sa, &self.digits, 10).unwrap(), self.scale);
        let b = BigDecimal::new(BigInt::from_radix_le(sb, &other.digits, 10).unwrap(), other.scale);
        a <= b
    }

    /// Whether the two numbers are written the same: with the same sign,
    /// digits and scale.
    pub fn same(&self, other: &Decimal) -> (r: bool)
        ensures
            r == (self.negative == other.negative && self.digits@ == other.digits@ && self.scale
                == other.scale),
    {
        if self.negative != other.negative || self.scale != other.scale || self.digits.len()
            != other.digits.len() {
            return false;
        }
        let mut i: usize = 0;
        while i < self.digits.len()
            invariant
                i <= self.digits.len(),
                self.digits.len() == other.digits.len(),
                self.digits@.take(i as int) == other.digits@.take(i as int),
            decreases self.digits.len() - i,
        {
            if self.digits[i] != other.digits[i] {
                return false;
            }
            assert(self.digits@.take(i + 1) == self.digits@.take(i as int).push(
                self.digits@[i as int],
            ));
            assert(other.digits@.take(i + 1) == other.digits@.take(i as int).push(
                other.digits@[i as int],
            ));
            i += 1;
        }
        assert(self.digits@.take(self.digits@.len() as int) == self.digits@);
        assert(other.digits@.take(other.digits@.len() as int) == other.digits@);
        true
    }

    /// A copy of this number.
    pub fn copy(&self) -> (r: Decimal)
        ensures
            r.negative == self.negative,
            r.digits@ == self.digits@,
            r.scale == self.scale,
    {
        let mut digits: Vec<u8> = Vec::new();
        let mut i: usize = 0;
        while i < self.digits.len()
            invariant
                i <= self.digits.len(),
                digits@ == self.digits@.take(i as int),
            decreases self.digits.len() - i,
        {
            digits.push(self.digits[i]);
            assert(self.digits@.take(i + 1) == self.digits@.take(i as int).push(
                self.digits@[i as int],
            ));
            i += 1;
        }
        assert(self.digits@.take(self.digits@.len() as int) == self.digits@);
        Decimal { negative: self.negative, digits, scale: self.scale }
    }
}

/// The integer that a sign and digits denote.
pub open spec fn signed(negative: bool, digits: Seq<u8>) -> int {
    if negative {
        -(unscaled(digits) as int)
    } else {
        unscaled(digits) as int
    }
}

/// A number of one digit denotes that digit.
pub proof fn lemma_unit(digit: u8)
    ensures
        unscaled(seq![digit]) == digit,
{
    assert(seq![digit].drop_first() =~= Seq::<u8>::empty());
    assert(unscaled(seq![digit].drop_first()) == 0);
}

/// With scale zero, a decimal denotes the integer of its sign and digits.
pub proof fn lemma_scaled_integer(negative: bool, digits: Seq<u8>)
    ensures
        scaled(negative, digits, 0, 0) == signed(negative, digits),
        pow10(0) == 1,
{
    assert(pow10(0) == 1);
    assert(unscaled(digits) * 1 == unscaled(digits));
}

impl Integer {
    /// `BigInt + BigInt`, on two values rebuilt from their digits by
    /// `BigInt::from_radix_le` and taken apart again by `to_radix_le(10)`:
    /// the sum of the two integers.
    #[verifier::external_body]
    pub(crate) fn plus(&self, other: &Integer) -> (r: Integer)
        requires
            self.0.wf(),
            other.0.wf(),
        ensures
            r.0.wf(),
            r.0.scale == 0,
            signed(r.0.negative, r.0.digits@) == signed(self.0.negative, self.0.digits@) + signed(
                other.0.negative,
                other.0.digits@,
            ),
    {
        let sa = if self.0.negative { Sign::Minus } else { Sign::Plus };
        let sb = if other.0.negative { Sign::Minus } else { Sign::Plus };
        let a = BigInt::from_radix_le(sa, &self.0.digits, 10).unwrap();
        let b = BigInt::from_radix_le(sb, &other.0.digits, 10).unwrap();
        let (sign, digits) = (a + b).to_radix_le(10);
        Integer(Decimal { negative: matches!(sign, Sign::Minus), digits, scale: 0 })
    }

    /// `BigInt - BigInt`, on two values rebuilt and taken apart as in `plus`:
    /// the difference of the two integers.
    #[verifier::external_body]
    pub(crate) fn minus(&self, other: &Integer) -> (r: Integer)
        requires
            self.0.wf(),
            other.0.wf(),
        ensures
            r.0.wf(),
            r.0.scale == 0,
            signed(r.0.negative, r.0.digits@) == signed(self.0.negative, self.0.digits@) - signed(
                other.0.negative,
                other.0.digits@,
            ),
    {
        let sa = if self.0.negative { Sign::Minus } else { Sign::Plus };
        let sb = if other.0.negative { Sign::Minus } else { Sign::Plus };
        let a = BigInt::from_radix_le(sa, &self.0.digits, 10).unwrap();
        let b = BigInt::from_radix_le(sb, &other.0.digits, 10).unwrap();
        let (sign, digits) = (a - b).to_radix_le(10);
        Integer(Decimal { negative: matches!(sign, Sign::Minus), digits, scale: 0 })
    }
}

impl Natural {
    /// `BigUint + BigUint`, on two values rebuilt from their digits by
    /// `BigUint::from_radix_le` and taken apart again by `to_radix_le(10)`:
    /// the sum of the two numbers.
    #[verifier::external_body]
    pub(crate) fn plus(&self, other: &Natural) -> (r: Natural)
        requires
            self.0.wf(),
            other.0.wf(),
        ensures
            r.0.wf(),
            r.0.scale == 0,
            !r.0.negative,
            unscaled(r.0.digits@) == unscaled(self.0.digits@) + unscaled(other.0.digits@),
    {
        let a = BigUint::from_radix_le(&self.0.digits, 10).unwrap();
        let b = BigUint::from_radix_le(&other.0.digits, 10).unwrap();
        Natural(Decimal { negative: false, digits: (a + b).to_radix_le(10), scale: 0 })
    }

    /// `BigUint - BigUint`, on two values rebuilt and taken apart as in
    /// `plus`: the difference of the two numbers. The subtraction panics
    /// when the second number is the larger one, so that is left out.
    #[verifier::external_body]
    pub(crate) fn minus(&self, other: &Natural) -> (r: Natural)
        requires
            self.0.wf(),
            other.0.wf(),
            unscaled(other.0.digits@) <= unscaled(self.0.digits@),
        ensures
            r.0.wf(),
            r.0.scale == 0,
            !r.0.negative,
            unscaled(r.0.digits@) == unscaled(self.0.digits@) - unscaled(other.0.digits@),
    {
        let a = BigUint::from_radix_le(&self.0.digits, 10).unwrap();
        let b = BigUint::from_radix_le(&other.0.digits, 10).unwrap();
        Natural(Decimal { negative: false, digits: (a - b).to_radix_le(10), scale: 0 })
    }
}

} // verus!
