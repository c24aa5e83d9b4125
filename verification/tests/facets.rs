// Facets on their own: restrictions on lengths and bounds on numbers.

use relaxng_validator::decimal::{Decimal, Integer, Natural};
use relaxng_validator::facets::LengthFacet::{Length, MaxLength, MinLength, MinMaxLength, Unbounded};
use relaxng_validator::facets::{FacetError, FacetValue, LengthFacet, Max, Min, MinMaxFacet, Stepped};

fn merged(a: LengthFacet, b: LengthFacet) -> Result<LengthFacet, &'static str> {
    let mut f = a;
    match f.merge(b) {
        Ok(()) => Ok(f),
        Err(FacetError::ConflictingFacet(why)) => {
            assert_eq!(f, a, "a conflict leaves the facet as it was");
            Err(why)
        }
        Err(other) => panic!("{other:?}"),
    }
}

#[test]
fn length_facets_admit_lengths() {
    assert!(Unbounded.is_valid("") && Unbounded.is_valid("any length at all"));
    assert!(MinLength(2).is_valid("ab") && !MinLength(2).is_valid("a"));
    assert!(MaxLength(2).is_valid("ab") && !MaxLength(2).is_valid("abc"));
    assert!(MinMaxLength(1, 2).is_valid("a") && MinMaxLength(1, 2).is_valid("ab"));
    assert!(!MinMaxLength(1, 2).is_valid("") && !MinMaxLength(1, 2).is_valid("abc"));
    assert!(Length(2).is_valid("ab") && !Length(2).is_valid("a") && !Length(2).is_valid("abc"));
    // characters are counted, not bytes
    assert!(Length(3).is_valid("äöü") && Length(1).is_valid("𝄞"));
    assert!(Length(0).allows(0) && !Length(0).allows(1));
    assert!(MinMaxLength(3, 2).allows(2) == false);
}

#[test]
fn length_facets_merge_in_either_order() {
    assert_eq!(merged(Unbounded, Unbounded), Ok(Unbounded));
    assert_eq!(merged(Unbounded, MinLength(1)), Ok(MinLength(1)));
    assert_eq!(merged(Unbounded, MaxLength(1)), Ok(MaxLength(1)));
    assert_eq!(merged(Unbounded, Length(1)), Ok(Length(1)));
    assert_eq!(merged(Unbounded, MinMaxLength(1, 2)), Ok(MinMaxLength(1, 2)));
    assert_eq!(merged(Unbounded, MinMaxLength(3, 2)), Err("minLength greater than maxLength"));
    assert_eq!(merged(MinLength(1), Unbounded), Ok(MinLength(1)));
    assert_eq!(merged(MaxLength(1), Unbounded), Ok(MaxLength(1)));
    assert_eq!(merged(Length(1), Unbounded), Ok(Length(1)));
    assert_eq!(merged(MinMaxLength(1, 2), Unbounded), Ok(MinMaxLength(1, 2)));
    assert_eq!(merged(MinLength(1), MaxLength(3)), Ok(MinMaxLength(1, 3)));
    assert_eq!(merged(MaxLength(3), MinLength(1)), Ok(MinMaxLength(1, 3)));
    assert_eq!(merged(MinLength(3), MaxLength(3)), Ok(MinMaxLength(3, 3)));
    assert_eq!(merged(MinLength(4), MaxLength(3)), Err("minLength greater than maxLength"));
    assert_eq!(merged(MaxLength(3), MinLength(4)), Err("minLength greater than maxLength"));
    assert_eq!(merged(MinLength(1), MinLength(2)), Err("minLength"));
    assert_eq!(merged(MaxLength(1), MaxLength(2)), Err("maxLength"));
    assert_eq!(merged(MinLength(1), Length(2)), Err("length"));
    assert_eq!(merged(MaxLength(1), Length(2)), Err("length"));
    assert_eq!(merged(MinMaxLength(1, 2), Length(2)), Err("length"));
    assert_eq!(merged(Length(1), Length(1)), Err("length"));
    assert_eq!(merged(Length(1), MinLength(1)), Err("length"));
    assert_eq!(merged(Length(1), MaxLength(1)), Err("length"));
    assert_eq!(merged(Length(1), MinMaxLength(1, 1)), Err("length"));
    assert_eq!(merged(MinMaxLength(1, 2), MinLength(1)), Err("minLength"));
    assert_eq!(merged(MinMaxLength(1, 2), MaxLength(2)), Err("maxLength"));
    assert_eq!(merged(MinMaxLength(1, 2), MinMaxLength(1, 2)), Err("minLength"));
    assert_eq!(merged(MinLength(1), MinMaxLength(1, 2)), Err("minLength"));
    assert_eq!(merged(MaxLength(1), MinMaxLength(1, 2)), Err("maxLength"));
}

fn conflict(r: Result<(), FacetError>) -> &'static str {
    match r {
        Err(FacetError::ConflictingFacet(why)) => why,
        other => panic!("{other:?}"),
    }
}

#[test]
fn bounds_admit_what_lies_between_them() {
    let mut f: MinMaxFacet<i32> = MinMaxFacet::default();
    assert!(!f.bounded());
    assert!(f.is_valid(&i32::MIN) && f.is_valid(&0) && f.is_valid(&i32::MAX));
    assert_eq!((f.min(), f.max()), (None, None));
    f.min_inclusive(10).unwrap();
    assert!(f.bounded());
    assert!(f.is_valid(&10) && !f.is_valid(&9) && f.is_valid(&i32::MAX));
    f.max_exclusive(20).unwrap();
    assert!(f.is_valid(&19) && !f.is_valid(&20));
    assert_eq!((f.min(), f.max()), (Some(10), Some(19)));
    assert_eq!((f.min_cloned(), f.max_cloned()), (Some(10), Some(19)));
    assert!(matches!(f.min, Min::Inclusive(10)) && matches!(f.max, Max::Exclusive(20)));

    let mut f: MinMaxFacet<u8> = MinMaxFacet::default();
    f.max_inclusive(200).unwrap();
    f.min_exclusive(100).unwrap();
    assert!(f.is_valid(&101) && f.is_valid(&200) && !f.is_valid(&100) && !f.is_valid(&201));
    assert_eq!((f.min(), f.max()), (Some(101), Some(200)));
    assert_eq!((f.min_cloned(), f.max_cloned()), (Some(101), Some(200)));
    assert!(Min::Exclusive(5u8).is_valid(&6) && !Min::Exclusive(5u8).is_valid(&5));
    assert!(Max::Inclusive(5i64).is_valid(&5) && !Max::Inclusive(5i64).is_valid(&6));
    assert!(Min::<i8>::Unbounded.is_valid(&i8::MIN) && Max::<i8>::Unbounded.is_valid(&i8::MAX));
}

#[test]
fn bounds_that_conflict_are_refused_and_change_nothing() {
    let mut f: MinMaxFacet<i16> = MinMaxFacet::default();
    f.max_inclusive(5).unwrap();
    assert_eq!(conflict(f.min_inclusive(6)), "minInclusive conflicts with maxInclusive");
    assert_eq!(conflict(f.min_exclusive(6)), "minInclusive conflicts with maxInclusive");
    assert_eq!(conflict(f.max_exclusive(9)), "maxExclusive conflicts with maxInclusive");
    assert_eq!(conflict(f.max_inclusive(9)), "maxInclusive");
    assert!(matches!(f.min, Min::Unbounded) && matches!(f.max, Max::Inclusive(5)));
    f.min_inclusive(5).unwrap();
    assert_eq!(conflict(f.min_exclusive(1)), "minExclusive conflicts with minInclusive");
    assert_eq!(conflict(f.min_inclusive(1)), "minInclusive");
    assert!(f.is_valid(&5) && !f.is_valid(&4) && !f.is_valid(&6));

    let mut f: MinMaxFacet<u64> = MinMaxFacet::default();
    f.min_exclusive(5).unwrap();
    assert_eq!(conflict(f.max_inclusive(5)), "minInclusive conflicts with maxExclusive");
    assert_eq!(conflict(f.max_exclusive(5)), "minInclusive conflicts with maxExclusive");
    assert_eq!(conflict(f.min_inclusive(6)), "minInclusive conflicts with minExclusive");
    assert_eq!(conflict(f.min_exclusive(6)), "minExclusive");
    f.max_exclusive(7).unwrap();
    assert_eq!(conflict(f.max_inclusive(8)), "maxInclusive conflicts with maxExclusive");
    assert_eq!(conflict(f.max_exclusive(8)), "maxExclusive");
    assert!(f.is_valid(&6) && !f.is_valid(&5) && !f.is_valid(&7));
}

#[test]
fn machine_integers_are_read_and_stepped() {
    assert_eq!(<i8 as FacetValue>::parse("-128"), Some(-128));
    assert_eq!(<i8 as FacetValue>::parse("128"), None);
    assert_eq!(<u16 as FacetValue>::parse("+65535"), Some(65535));
    assert_eq!(<u16 as FacetValue>::parse("-1"), None);
    assert_eq!(<i64 as FacetValue>::parse("000"), Some(0));
    assert_eq!(<u32 as FacetValue>::parse(""), None);
    assert!(3i32.at_most(&3) && 3i32.at_most(&4) && !4i32.at_most(&3));
    assert_eq!((5u8.next(), 5u8.prev(), 5u8.same()), (6, 4, 5));
    assert_eq!(((-5i64).next(), (-5i64).prev()), (-4, -6));
}

fn decimal(text: &str) -> Decimal {
    <Decimal as FacetValue>::parse(text).expect("a decimal")
}

#[test]
fn decimals_are_compared_as_numbers() {
    let le = |a: &str, b: &str| decimal(a).at_most(&decimal(b));
    assert!(le("1", "2") && !le("2", "1") && le("2", "2"));
    assert!(le("1.5", "1.50") && le("1.50", "1.5"));
    assert!(le("-2", "-1") && !le("-1", "-2"));
    assert!(le("-0", "0") && le("0", "-0") && le("0.0", "0"));
    assert!(le("0.999999999999999999999999999", "1") && !le("1", "0.999999999999999999999999999"));
    assert!(le("1e3", "1000") && le("1000", "1e3") && le("999.999", "1e3"));
    assert!(le("12345678901234567890", "12345678901234567891"));
    assert!(!le("12345678901234567891", "12345678901234567890"));
    let d = decimal("-12.50");
    assert!(d.negative);
    assert_eq!((d.digits.clone(), d.scale), (vec![0, 5, 2, 1], 2));
    let c = d.copy();
    assert_eq!((c.negative, c.digits, c.scale), (true, vec![0, 5, 2, 1], 2));
    let one = Decimal::unit(false, 1);
    assert!(decimal("0.5").at_most(&one) && one.at_most(&decimal("1.0")) && !decimal("1.01").at_most(&one));
    assert!(<Decimal as FacetValue>::parse("1.2.3").is_none());
    assert!(<Decimal as FacetValue>::parse("").is_none());
}

#[test]
fn unbounded_integers_are_read_and_compared() {
    let int = |t: &str| <Integer as FacetValue>::parse(t);
    let nat = |t: &str| <Natural as FacetValue>::parse(t);
    assert!(int("-5").unwrap().at_most(&int("3").unwrap()));
    assert!(!int("3").unwrap().at_most(&int("-5").unwrap()));
    assert!(int("100000000000000000000").unwrap().at_most(&int("100000000000000000001").unwrap()));
    assert!(int("1.5").is_none() && int("").is_none() && int("x").is_none());
    assert!(nat("5").unwrap().at_most(&nat("5").unwrap()));
    assert!(nat("-5").is_none() && nat("x").is_none());
    let n = int("-120").unwrap();
    assert!(n.0.negative);
    assert_eq!((n.0.digits.clone(), n.0.scale), (vec![0, 2, 1], 0));
    let mut f: MinMaxFacet<Integer> = MinMaxFacet::default();
    f.min_inclusive(int("-10").unwrap()).unwrap();
    f.max_exclusive(int("99999999999999999999").unwrap()).unwrap();
    assert!(f.is_valid(&int("-10").unwrap()) && f.is_valid(&int("99999999999999999998").unwrap()));
    assert!(!f.is_valid(&int("-11").unwrap()) && !f.is_valid(&int("99999999999999999999").unwrap()));
    assert_eq!(
        conflict(f.min_exclusive(int("100000000000000000000").unwrap())),
        "minInclusive conflicts with maxExclusive"
    );
}

fn same_integer(a: &Integer, text: &str) -> bool {
    let b = Integer::parse(text).unwrap();
    a.at_most(&b) && b.at_most(a)
}

fn same_natural(a: &Natural, text: &str) -> bool {
    let b = Natural::parse(text).unwrap();
    a.at_most(&b) && b.at_most(a)
}

#[test]
fn exclusive_bounds_on_unbounded_integers_step_by_one() {
    let mut f: MinMaxFacet<Integer> = MinMaxFacet::default();
    assert!(f.min_cloned().is_none() && f.max_cloned().is_none());
    f.min_exclusive(Integer::parse("-1").unwrap()).unwrap();
    f.max_exclusive(Integer::parse("100000000000000000000").unwrap()).unwrap();
    assert!(same_integer(&f.min_cloned().unwrap(), "0"));
    assert!(same_integer(&f.max_cloned().unwrap(), "99999999999999999999"));

    let mut f: MinMaxFacet<Integer> = MinMaxFacet::default();
    f.min_inclusive(Integer::parse("-7").unwrap()).unwrap();
    f.max_exclusive(Integer::parse("0").unwrap()).unwrap();
    assert!(same_integer(&f.min_cloned().unwrap(), "-7"));
    assert!(same_integer(&f.max_cloned().unwrap(), "-1"));

    let mut f: MinMaxFacet<Natural> = MinMaxFacet::default();
    f.min_exclusive(Natural::parse("9").unwrap()).unwrap();
    f.max_exclusive(Natural::parse("1000").unwrap()).unwrap();
    assert!(same_natural(&f.min_cloned().unwrap(), "10"));
    assert!(same_natural(&f.max_cloned().unwrap(), "999"));
    assert!(same_natural(&Natural::parse("0").unwrap().next(), "1"));
    assert!(same_natural(&Natural::parse("1").unwrap().prev(), "0"));
    assert!(same_integer(&Integer::parse("0").unwrap().prev(), "-1"));
    assert!(same_integer(&Integer::parse("-1").unwrap().next(), "0"));
}

#[test]
fn bounds_that_meet_need_both_to_be_inclusive() {
    // 5 <= v <= 5 holds one number
    let mut f: MinMaxFacet<i32> = MinMaxFacet::default();
    f.min_inclusive(5).unwrap();
    f.max_inclusive(5).unwrap();
    assert!(f.is_valid(&5) && !f.is_valid(&4) && !f.is_valid(&6));
    // 5 < v <= 5, 5 <= v < 5 and 5 < v < 5 hold none, in whichever order they are set
    for (lower_exclusive, upper_exclusive) in [(true, false), (false, true), (true, true)] {
        for lower_first in [true, false] {
            let mut f: MinMaxFacet<i32> = MinMaxFacet::default();
            let lower = |f: &mut MinMaxFacet<i32>| {
                if lower_exclusive { f.min_exclusive(5) } else { f.min_inclusive(5) }
            };
            let upper = |f: &mut MinMaxFacet<i32>| {
                if upper_exclusive { f.max_exclusive(5) } else { f.max_inclusive(5) }
            };
            let (first, second) = if lower_first {
                (lower(&mut f), upper(&mut f))
            } else {
                (upper(&mut f), lower(&mut f))
            };
            assert!(first.is_ok());
            assert!(
                matches!(second, Err(FacetError::ConflictingFacet(_))),
                "{lower_exclusive} {upper_exclusive} {lower_first}"
            );
            // the bound that was refused is not set
            assert!(f.is_valid(&5) == (lower_first && !lower_exclusive || !lower_first && !upper_exclusive));
        }
    }
    // bounds that do not meet are taken in both orders
    let mut f: MinMaxFacet<i32> = MinMaxFacet::default();
    f.max_inclusive(6).unwrap();
    f.min_exclusive(5).unwrap();
    assert!(f.is_valid(&6) && !f.is_valid(&5));
    let mut f: MinMaxFacet<Integer> = MinMaxFacet::default();
    f.min_exclusive(Integer::parse("10").unwrap()).unwrap();
    assert!(f.max_inclusive(Integer::parse("10").unwrap()).is_err());
    assert!(f.max_exclusive(Integer::parse("10").unwrap()).is_err());
    f.max_exclusive(Integer::parse("11").unwrap()).unwrap();
}
