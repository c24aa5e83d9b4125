//! Lexical forms of numbers: machine integers and unbounded decimals.

use vstd::prelude::*;
use crate::text::chars_of;

verus! {

pub open spec fn is_digit(c: char) -> bool {
    '0' <= c <= '9'
}

pub open spec fn all_digits(s: Seq<char>) -> bool {
    forall|i: int| 0 <= i < s.len() ==> is_digit(#[trigger] s[i])
}

/// The number that a run of decimal digits denotes.
pub open spec fn digits_value(s: Seq<char>) -> nat
    decreases s.len(),
{
    if s.len() == 0 {
        0
    } else {
        digits_value(s.drop_last()) * 10 + ((s.last() as u32 - 0x30) as nat)
    }
}

/// The integer that `s` denotes: an optional sign, then one or more digits.
/// A minus sign is only read where `signed` holds.
pub open spec fn integer_lexical(s: Seq<char>, signed: bool) -> Option<int> {
    if s.len() > 0 && (s[0] == '+' || (s[0] == '-' && signed)) {
        if s.len() > 1 && all_digits(s.skip(1)) {
            if s[0] == '-' {
                Some(-(digits_value(s.skip(1)) as int))
            } else {
                Some(digits_value(s.skip(1)) as int)
            }
        } else {
            None
        }
    } else if s.len() > 0 && all_digits(s) {
        Some(digits_value(s) as int)
    } else {
        None
    }
}

/// The integer that `s` denotes, if it lies in `lo..=hi`.
pub open spec fn integer_in(s: Seq<char>, signed: bool, lo: int, hi: int) -> Option<int> {
    match integer_lexical(s, signed) {
        Some(v) => if lo <= v <= hi {
            Some(v)
        } else {
            None
        },
        None => None,
    }
}

pub proof fn lemma_digits_value_push(s: Seq<char>, c: char)
    ensures
        digits_value(s.push(c)) == digits_value(s) * 10 + ((c as u32 - 0x30) as nat),
{
    assert(s.push(c).drop_last() == s);
}

/// Reads a decimal integer that has to lie in `lo..=hi`.
pub fn parse_integer(text: &str, signed: bool, lo: i128, hi: i128) -> (r: Option<i128>)
    requires
        -0x1_0000_0000_0000_0000 <= lo <= 0 <= hi <= 0x1_0000_0000_0000_0000,
    ensures
        match r {
            Some(v) => integer_in(text@, signed, lo as int, hi as int) == Some(v as int),
            None => integer_in(text@, signed, lo as int, hi as int) is None,
        },
{
    let v = chars_of(text);
    let n = v.len();
    if n == 0 {
        return None;
    }
    let mut start: usize = 0;
    let mut negative = false;
    if v[0] == '+' {
        start = 1;
    } else if v[0] == '-' && signed {
        start = 1;
        negative = true;
    }
    if start == n {
        return None;
    }
    let ghost d = v@.skip(start as int);
    let mut acc: i128 = 0;
    let mut over = false;
    let mut i: usize = start;
    while i < n
        invariant
            start <= i <= n,
            n == v.len(),
            n > 0,
            v@ == text@,
            start == (if v@[0] == '+' || (v@[0] == '-' && signed) { 1usize } else { 0usize }),
            d == v@.skip(start as int),
            forall|k: int| 0 <= k < i - start ==> is_digit(#[trigger] d[k]),
            0 <= acc <= 0x1_0000_0000_0000_0000,
            !over ==> acc == digits_value(d.take(i - start)),
            over ==> digits_value(d.take(i - start)) > 0x1_0000_0000_0000_0000,
        decreases n - i,
    {
        let c = v[i];
        assert(d[i - start] == c);
        if !('0' <= c && c <= '9') {
            assert(!all_digits(d));
            assert(start == 0 ==> d == v@);
            return None;
        }
        proof {
            lemma_digits_value_push(d.take(i - start), c);
            assert(d.take(i - start + 1) == d.take(i - start).push(c));
        }
        if !over {
            let digit: i128 = (c as u32 - 0x30) as i128;
            acc = acc * 10 + digit;
            if acc > 0x1_0000_0000_0000_0000 {
                over = true;
                acc = 0;
            }
        }
        i += 1;
    }
    proof {
        assert(d.take(d.len() as int) == d);
        assert(all_digits(d));
        if start == 0 {
            assert(d == v@);
        }
    }
    if over {
        return None;
    }
    let value: i128 = if negative {
        -acc
    } else {
        acc
    };
    if lo <= value && value <= hi {
        Some(value)
    } else {
        None
    }
}

/// The `i8` that `text` denotes.
pub fn parse_i8(text: &str) -> (r: Option<i8>)
    ensures
        match r {
            Some(v) => integer_in(text@, true, i8::MIN as int, i8::MAX as int) == Some(v as int),
            None => integer_in(text@, true, i8::MIN as int, i8::MAX as int) is None,
        },
{
    match parse_integer(text, true, i8::MIN as i128, i8::MAX as i128) {
        Some(v) => Some(v as i8),
        None => None,
    }
}

/// The `u8` that `text` denotes.
pub fn parse_u8(text: &str) -> (r: Option<u8>)
    ensures
        match r {
            Some(v) => integer_in(text@, false, u8::MIN as int, u8::MAX as int) == Some(v as int),
            None => integer_in(text@, false, u8::MIN as int, u8::MAX as int) is None,
        },
{
    match parse_integer(text, false, u8::MIN as i128, u8::MAX as i128) {
        Some(v) => Some(v as u8),
        None => None,
    }
}

/// The `i16` that `text` denotes.
pub fn parse_i16(text: &str) -> (r: Option<i16>)
    ensures
        match r {
            Some(v) => integer_in(text@, true, i16::MIN as int, i16::MAX as int) == Some(v as int),
            None => integer_in(text@, true, i16::MIN as int, i16::MAX as int) is None,
        },
{
    match parse_integer(text, true, i16::MIN as i128, i16::MAX as i128) {
        Some(v) => Some(v as i16),
        None => None,
    }
}

/// The `u16` that `text` denotes.
pub fn parse_u16(text: &str) -> (r: Option<u16>)
    ensures
        match r {
            Some(v) => integer_in(text@, false, u16::MIN as int, u16::MAX as int) == Some(v as int),
            None => integer_in(text@, false, u16::MIN as int, u16::MAX as int) is None,
        },
{
    match parse_integer(text, false, u16::MIN as i128, u16::MAX as i128) {
        Some(v) => Some(v as u16),
        None => None,
    }
}

/// The `i32` that `text` denotes.
pub fn parse_i32(text: &str) -> (r: Option<i32>)
    ensures
        match r {
            Some(v) => integer_in(text@, true, i32::MIN as int, i32::MAX as int) == Some(v as int),
            None => integer_in(text@, true, i32::MIN as int, i32::MAX as int) is None,
        },
{
    match parse_integer(text, true, i32::MIN as i128, i32::MAX as i128) {
        Some(v) => Some(v as i32),
        None => None,
    }
}

/// The `u32` that `text` denotes.
pub fn parse_u32(text: &str) -> (r: Option<u32>)
    ensures
        match r {
            Some(v) => integer_in(text@, false, u32::MIN as int, u32::MAX as int) == Some(v as int),
            None => integer_in(text@, false, u32::MIN as int, u32::MAX as int) is None,
        },
{
    match parse_integer(text, false, u32::MIN as i128, u32::MAX as i128) {
        Some(v) => Some(v as u32),
        None => None,
    }
}

/// The `i64` that `text` denotes.
pub fn parse_i64(text: &str) -> (r: Option<i64>)
    ensures
        match r {
            Some(v) => integer_in(text@, true, i64::MIN as int, i64::MAX as int) == Some(v as int),
            None => integer_in(text@, true, i64::MIN as int, i64::MAX as int) is None,
        },
{
    match parse_integer(text, true, i64::MIN as i128, i64::MAX as i128) {
        Some(v) => Some(v as i64),
        None => None,
    }
}

/// The `u64` that `text` denotes.
pub fn parse_u64(text: &str) -> (r: Option<u64>)
    ensures
        match r {
            Some(v) => integer_in(text@, false, u64::MIN as int, u64::MAX as int) == Some(v as int),
            None => integer_in(text@, false, u64::MIN as int, u64::MAX as int) is None,
        },
{
    match parse_integer(text, false, u64::MIN as i128, u64::MAX as i128) {
        Some(v) => Some(v as u64),
        None => None,
    }
}

/// Index of the first `a` or `b` in `s`, or the length of `s` when there is
/// none.
pub open spec fn index_of_either(s: Seq<char>, a: char, b: char) -> int
    decreases s.len(),
{
    if s.len() == 0 {
        0
    } else if s[0] == a || s[0] == b {
        0
    } else {
        1 + index_of_either(s.drop_first(), a, b)
    }
}

pub proof fn lemma_index_of_either(s: Seq<char>, a: char, b: char)
    ensures
        0 <= index_of_either(s, a, b) <= s.len(),
        index_of_either(s, a, b) < s.len() ==> (s[index_of_either(s, a, b)] == a || s[index_of_either(
            s,
            a,
            b,
        )] == b),
        forall|j: int| 0 <= j < index_of_either(s, a, b) ==> s[j] != a && s[j] != b,
    decreases s.len(),
{
    if s.len() > 0 && s[0] != a && s[0] != b {
        let t = s.drop_first();
        lemma_index_of_either(t, a, b);
        assert forall|j: int| 0 <= j < index_of_either(s, a, b) implies s[j] != a && s[j] != b by {
            if j > 0 {
                assert(t[j - 1] == s[j]);
            }
        }
    }
}

/// `c` is the lower-case letter `l` or its upper-case form.
pub open spec fn same_letter(c: char, l: char) -> bool {
    c == l || (c as u32) + 32 == l as u32
}

/// `s` spells `w` (given in lower case), in any mix of cases.
pub open spec fn spells(s: Seq<char>, w: Seq<char>) -> bool {
    s.len() == w.len() && forall|i: int| 0 <= i < s.len() ==> same_letter(#[trigger] s[i], w[i])
}

/// `s` without its sign, if it starts with one.
pub open spec fn unsigned_part(s: Seq<char>) -> Seq<char> {
    if s.len() > 0 && (s[0] == '+' || s[0] == '-') {
        s.skip(1)
    } else {
        s
    }
}

/// Digits with at most one point among them, and at least one digit.
pub open spec fn is_mantissa(m: Seq<char>) -> bool {
    let d = crate::text::index_of(m, '.');
    if d < m.len() {
        all_digits(m.take(d)) && all_digits(m.skip(d + 1)) && m.len() > 1
    } else {
        m.len() > 0 && all_digits(m)
    }
}

/// An optional sign and one or more digits.
pub open spec fn is_exponent(x: Seq<char>) -> bool {
    unsigned_part(x).len() > 0 && all_digits(unsigned_part(x))
}

/// A mantissa, and an exponent after `e` or `E` if there is one.
pub open spec fn is_float_number(b: Seq<char>) -> bool {
    let p = index_of_either(b, 'e', 'E');
    is_mantissa(b.take(p)) && (p < b.len() ==> is_exponent(b.skip(p + 1)))
}

/// The lexical forms of a floating-point number: an optional sign, then
/// `inf`, `infinity`, `nan` or a decimal number with an optional exponent.
pub open spec fn float_lexical(s: Seq<char>) -> bool {
    let b = unsigned_part(s);
    spells(b, seq!['i', 'n', 'f']) || spells(
        b,
        seq!['i', 'n', 'f', 'i', 'n', 'i', 't', 'y'],
    ) || spells(b, seq!['n', 'a', 'n']) || is_float_number(b)
}

fn letter_is(c: char, l: char) -> (r: bool)
    ensures
        r == same_letter(c, l),
{
    c == l || (c as u32) + 32 == l as u32
}

fn digits_range(v: &Vec<char>, from: usize, to: usize) -> (r: bool)
    requires
        from <= to <= v.len(),
    ensures
        r == all_digits(v@.subrange(from as int, to as int)),
{
    let ghost s = v@.subrange(from as int, to as int);
    let mut i: usize = from;
    while i < to
        invariant
            from <= i <= to <= v.len(),
            s == v@.subrange(from as int, to as int),
            forall|k: int| 0 <= k < i - from ==> is_digit(#[trigger] s[k]),
        decreases to - i,
    {
        let c = v[i];
        assert(s[i - from] == c);
        if !('0' <= c && c <= '9') {
            return false;
        }
        i += 1;
    }
    true
}

fn find_in_range(v: &Vec<char>, from: usize, to: usize, a: char, b: char) -> (r: usize)
    requires
        from <= to <= v.len(),
    ensures
        from <= r <= to,
        r - from == index_of_either(v@.subrange(from as int, to as int), a, b),
{
    let ghost s = v@.subrange(from as int, to as int);
    let mut i: usize = from;
    while i < to
        invariant
            from <= i <= to <= v.len(),
            s == v@.subrange(from as int, to as int),
            forall|k: int| 0 <= k < i - from ==> s[k] != a && s[k] != b,
        decreases to - i,
    {
        let c = v[i];
        assert(s[i - from] == c);
        if c == a || c == b {
            proof {
                lemma_index_of_either(s, a, b);
                let k = index_of_either(s, a, b);
                if k < i - from {
                    assert(s[k] != a && s[k] != b);
                }
            }
            return i;
        }
        i += 1;
    }
    proof {
        lemma_index_of_either(s, a, b);
        let k = index_of_either(s, a, b);
        if k < to - from {
            assert(s[k] != a && s[k] != b);
        }
    }
    to
}

fn spells_special(v: &Vec<char>, start: usize) -> (r: bool)
    requires
        start <= v.len(),
    ensures
        r == ({
            let b = v@.subrange(start as int, v.len() as int);
            spells(b, seq!['i', 'n', 'f']) || spells(
                b,
                seq!['i', 'n', 'f', 'i', 'n', 'i', 't', 'y'],
            ) || spells(b, seq!['n', 'a', 'n'])
        }),
{
    let n = v.len();
    let m = n - start;
    let ghost b = v@.subrange(start as int, n as int);
    let ghost inf = seq!['i', 'n', 'f'];
    let ghost infinity = seq!['i', 'n', 'f', 'i', 'n', 'i', 't', 'y'];
    let ghost nan = seq!['n', 'a', 'n'];
    if m == 3 {
        let is_inf = letter_is(v[start], 'i') && letter_is(v[start + 1], 'n') && letter_is(
            v[start + 2],
            'f',
        );
        let is_nan = letter_is(v[start], 'n') && letter_is(v[start + 1], 'a') && letter_is(
            v[start + 2],
            'n',
        );
        proof {
            assert(b[0] == v@[start as int] && b[1] == v@[start + 1] && b[2] == v@[start + 2]);
            assert(spells(b, inf) == is_inf) by {
                if spells(b, inf) {
                    assert(same_letter(b[0], inf[0]) && same_letter(b[1], inf[1]) && same_letter(
                        b[2],
                        inf[2],
                    ));
                }
            }
            assert(spells(b, nan) == is_nan) by {
                if spells(b, nan) {
                    assert(same_letter(b[0], nan[0]) && same_letter(b[1], nan[1]) && same_letter(
                        b[2],
                        nan[2],
                    ));
                }
            }
        }
        is_inf || is_nan
    } else if m == 8 {
        let head = letter_is(v[start], 'i') && letter_is(v[start + 1], 'n') && letter_is(
            v[start + 2],
            'f',
        ) && letter_is(v[start + 3], 'i');
        let tail = letter_is(v[start + 4], 'n') && letter_is(v[start + 5], 'i') && letter_is(
            v[start + 6],
            't',
        ) && letter_is(v[start + 7], 'y');
        proof {
            assert(b[0] == v@[start as int] && b[1] == v@[start + 1] && b[2] == v@[start + 2]
                && b[3] == v@[start + 3]);
            assert(b[4] == v@[start + 4] && b[5] == v@[start + 5] && b[6] == v@[start + 6] && b[7]
                == v@[start + 7]);
            assert(spells(b, infinity) == (head && tail)) by {
                if spells(b, infinity) {
                    assert(same_letter(b[0], infinity[0]) && same_letter(b[1], infinity[1])
                        && same_letter(b[2], infinity[2]) && same_letter(b[3], infinity[3]));
                    assert(same_letter(b[4], infinity[4]) && same_letter(b[5], infinity[5])
                        && same_letter(b[6], infinity[6]) && same_letter(b[7], infinity[7]));
                }
            }
        }
        head && tail
    } else {
        false
    }
}

fn mantissa_range(v: &Vec<char>, from: usize, to: usize) -> (r: bool)
    requires
        from <= to <= v.len(),
    ensures
        r == is_mantissa(v@.subrange(from as int, to as int)),
{
    let ghost mant = v@.subrange(from as int, to as int);
    let dot = find_in_range(v, from, to, '.', '.');
    proof {
        let k = index_of_either(mant, '.', '.');
        lemma_index_of_either(mant, '.', '.');
        crate::text::lemma_index_of_unique(mant, '.', k);
        assert(mant.take(dot - from) == v@.subrange(from as int, dot as int));
        if dot < to {
            assert(mant.skip(dot - from + 1) == v@.subrange(dot + 1, to as int));
        }
    }
    if dot < to {
        digits_range(v, from, dot) && digits_range(v, dot + 1, to) && to - from > 1
    } else {
        to > from && digits_range(v, from, to)
    }
}

fn exponent_range(v: &Vec<char>, from: usize, to: usize) -> (r: bool)
    requires
        from <= to <= v.len(),
    ensures
        r == is_exponent(v@.subrange(from as int, to as int)),
{
    let ghost x = v@.subrange(from as int, to as int);
    let start: usize = if from < to && (v[from] == '+' || v[from] == '-') {
        from + 1
    } else {
        from
    };
    proof {
        if from < to {
            assert(x[0] == v@[from as int]);
        }
        assert(unsigned_part(x) == v@.subrange(start as int, to as int));
    }
    start < to && digits_range(v, start, to)
}

/// Whether `text` is a lexical form of a floating-point number.
pub fn is_float_lexical(text: &str) -> (r: bool)
    ensures
        r == float_lexical(text@),
{
    let v = chars_of(text);
    let n = v.len();
    let start: usize = if n > 0 && (v[0] == '+' || v[0] == '-') {
        1
    } else {
        0
    };
    let ghost b = unsigned_part(v@);
    assert(b == v@.subrange(start as int, n as int));
    if spells_special(&v, start) {
        return true;
    }
    let e = find_in_range(&v, start, n, 'e', 'E');
    assert(b.take(e - start) == v@.subrange(start as int, e as int));
    if !mantissa_range(&v, start, e) {
        return false;
    }
    if e == n {
        return true;
    }
    assert(b.skip(e - start + 1) == v@.subrange(e + 1, n as int));
    exponent_range(&v, e + 1, n)
}

/// The `usize` that `text` denotes.
pub fn parse_usize(text: &str) -> (r: Option<usize>)
    ensures
        match r {
            Some(v) => integer_in(text@, false, 0, usize::MAX as int) == Some(v as int),
            None => integer_in(text@, false, 0, usize::MAX as int) is None,
        },
{
    match parse_integer(text, false, 0, usize::MAX as i128) {
        Some(v) => Some(v as usize),
        None => None,
    }
}

} // verus!
