//! References to entities and characters in the text of a document.

use vstd::prelude::*;
use crate::number::{integer_in, parse_u32};
use crate::span::Span;
use crate::text::{chars_of, index_of, lemma_index_of_unique, string_of};
use crate::token::ValidatorError;

verus! {

/// `char::from_u32`: the character with the code `i`, where `i` is the code
/// of a character.
pub assume_specification[ std::char::from_u32 ](i: u32) -> (r: Option<char>)
    ensures
        match r {
            Some(c) => c as u32 == i && c == i as char && is_scalar(i),
            None => !is_scalar(i),
        },
;

/// The codes of characters: all up to `0x10FFFF` but the surrogates.
pub open spec fn is_scalar(i: u32) -> bool {
    i <= 0xd7ff || (0xe000 <= i <= 0x10ffff)
}

/// A part of a text: a run of text, the name of an entity that is referred
/// to, or a character that is referred to by its number, each with the
/// offset at which it starts.
#[derive(Debug)]
pub enum Txt {
    Text(usize, String),
    Entity(usize, String),
    Char(usize, char),
}

/// A part of a text, or the place of a reference that is not well formed.
pub enum Piece {
    Text(nat, Seq<char>),
    Entity(nat, Seq<char>),
    Char(nat, char),
    Invalid(nat, nat),
}

/// The number of bytes of a character in UTF-8.
pub open spec fn width(c: char) -> nat {
    let n = c as u32;
    if n < 0x80 {
        1
    } else if n < 0x800 {
        2
    } else if n < 0x10000 {
        3
    } else {
        4
    }
}

/// The number of bytes of a text in UTF-8.
pub open spec fn byte_len(s: Seq<char>) -> nat
    decreases s.len(),
{
    if s.len() == 0 {
        0
    } else {
        byte_len(s.drop_last()) + width(s.last())
    }
}

pub open spec fn is_hex(c: char) -> bool {
    ('0' <= c <= '9') || ('a' <= c <= 'f') || ('A' <= c <= 'F')
}

pub open spec fn hex_digit(c: char) -> nat {
    if '0' <= c <= '9' {
        (c as u32 - 0x30) as nat
    } else if 'a' <= c <= 'f' {
        (c as u32 - 0x61 + 10) as nat
    } else {
        (c as u32 - 0x41 + 10) as nat
    }
}

pub open spec fn all_hex(s: Seq<char>) -> bool {
    forall|i: int| 0 <= i < s.len() ==> is_hex(#[trigger] s[i])
}

/// The number that a run of hexadecimal digits denotes.
pub open spec fn hex_value(s: Seq<char>) -> nat
    decreases s.len(),
{
    if s.len() == 0 {
        0
    } else {
        hex_value(s.drop_last()) * 16 + hex_digit(s.last())
    }
}

/// The number up to `u32::MAX` that `s` denotes in hexadecimal: an optional
/// `+`, then one or more digits.
pub open spec fn hex_number(s: Seq<char>) -> Option<u32> {
    let d = if s.len() > 0 && s[0] == '+' {
        s.skip(1)
    } else {
        s
    };
    if d.len() > 0 && all_hex(d) && hex_value(d) <= u32::MAX {
        Some(hex_value(d) as u32)
    } else {
        None
    }
}

/// The character that a numeric reference denotes: `t` is what stands
/// between `&#` and `;`, and `off` the offset of the `#` in the document.
pub open spec fn numeric_piece(off: nat, t: Seq<char>) -> Piece {
    if t.len() == 0 {
        Piece::Invalid(off, off)
    } else if t[0] == 'x' {
        match hex_number(t.skip(1)) {
            Some(c) => if is_scalar(c) {
                Piece::Char(off + 1, c as char)
            } else {
                Piece::Invalid(off + 1, off + 1)
            },
            None => Piece::Invalid(off + 1, off + 1),
        }
    } else {
        match integer_in(t, false, 0, u32::MAX as int) {
            Some(c) => if is_scalar(c as u32) {
                Piece::Char(off, (c as u32) as char)
            } else {
                Piece::Invalid(off, off)
            },
            None => Piece::Invalid(off, off),
        }
    }
}

/// The parts of `text[i..]`, where a run of text starts at `i`: the text up
/// to the next `&`, then what follows it. `pos` is the offset of the text
/// in the document.
pub open spec fn pieces(pos: nat, text: Seq<char>, i: int) -> Seq<Piece>
    decreases text.len() - i, 1nat,
{
    if i < 0 || i >= text.len() {
        Seq::empty()
    } else {
        let a = i + index_of(text.skip(i), '&');
        let head = Piece::Text(pos + byte_len(text.take(i)), text.subrange(i, a));
        if i <= a < text.len() {
            seq![head] + reference(pos, text, a + 1)
        } else {
            seq![head]
        }
    }
}

/// The parts of `text[j..]`, where `j` follows a `&`: the reference up to
/// the next `;`, then what follows it. A reference that is not closed or
/// not well formed is the last part; so is a `&` that ends the text.
pub open spec fn reference(pos: nat, text: Seq<char>, j: int) -> Seq<Piece>
    decreases text.len() - j, 0nat,
{
    if j < 0 || j > text.len() {
        Seq::empty()
    } else {
        let s = j + index_of(text.skip(j), ';');
        let off = byte_len(text.take(j));
        if j <= s < text.len() {
            let name = text.subrange(j, s);
            let piece = if name.len() > 0 && name[0] == '#' {
                numeric_piece(pos + off, name.skip(1))
            } else {
                Piece::Entity(pos + off, name)
            };
            if piece is Invalid {
                seq![piece]
            } else {
                seq![piece] + pieces(pos, text, s + 1)
            }
        } else {
            seq![Piece::Invalid((pos + off - 1) as nat, pos + off)]
        }
    }
}

/// What an item of the result stands for.
pub open spec fn piece_of(item: Result<Txt, ValidatorError>) -> Piece {
    match item {
        Ok(Txt::Text(p, s)) => Piece::Text(p as nat, s@),
        Ok(Txt::Entity(p, s)) => Piece::Entity(p as nat, s@),
        Ok(Txt::Char(p, c)) => Piece::Char(p as nat, c),
        Err(ValidatorError::InvalidOrUnclosedEntity { span }) => Piece::Invalid(
            span.start as nat,
            span.end as nat,
        ),
        Err(_) => Piece::Invalid(0, 0),
    }
}

pub open spec fn shown(items: Seq<Result<Txt, ValidatorError>>) -> Seq<Piece> {
    Seq::new(items.len(), |k: int| piece_of(items[k]))
}

pub proof fn lemma_byte_len_take(s: Seq<char>, k: int)
    requires
        0 <= k <= s.len(),
    ensures
        k <= byte_len(s.take(k)) <= byte_len(s),
    decreases s.len() - k,
{
    lemma_byte_len_min(s.take(k));
    if k < s.len() {
        assert(s.take(k + 1).drop_last() == s.take(k));
        lemma_byte_len_take(s, k + 1);
    } else {
        assert(s.take(k) == s);
    }
}

pub proof fn lemma_byte_len_min(s: Seq<char>)
    ensures
        s.len() <= byte_len(s),
    decreases s.len(),
{
    if s.len() > 0 {
        lemma_byte_len_min(s.drop_last());
    }
}

fn char_width(c: char) -> (r: usize)
    ensures
        r == width(c),
{
    let n: u32 = c as u32;
    if n < 0x80 {
        1
    } else if n < 0x800 {
        2
    } else if n < 0x10000 {
        3
    } else {
        4
    }
}

/// The number of bytes of `text` in UTF-8, if it can be counted.
pub fn text_width(text: &str) -> (r: Option<usize>)
    ensures
        match r {
            Some(n) => n == byte_len(text@),
            None => byte_len(text@) > usize::MAX,
        },
{
    let mut total: usize = 0;
    let mut over = false;
    for c in it: text.chars()
        invariant
            it.seq() == text@,
            !over ==> total == byte_len(text@.take(it.index() as int)),
            over ==> byte_len(text@.take(it.index() as int)) > usize::MAX,
    {
        proof {
            assert(text@.take(it.index() + 1).drop_last() == text@.take(it.index() as int));
            assert(text@.take(it.index() + 1).last() == c);
        }
        if !over {
            match total.checked_add(char_width(c)) {
                Some(t) => {
                    total = t;
                },
                None => {
                    over = true;
                },
            }
        }
    }
    assert(text@.take(text@.len() as int) == text@);
    if over {
        None
    } else {
        Some(total)
    }
}

/// The offset of `v[to]`, given that of `v[from]`.
fn offset_at(v: &Vec<char>, from: usize, to: usize, off: usize) -> (r: usize)
    requires
        from <= to <= v.len(),
        off == byte_len(v@.take(from as int)),
        byte_len(v@) <= usize::MAX,
    ensures
        r == byte_len(v@.take(to as int)),
{
    let mut k = from;
    let mut cur = off;
    while k < to
        invariant
            from <= k <= to <= v.len(),
            cur == byte_len(v@.take(k as int)),
            byte_len(v@) <= usize::MAX,
        decreases to - k,
    {
        proof {
            assert(v@.take(k + 1).drop_last() == v@.take(k as int));
            assert(v@.take(k + 1).last() == v@[k as int]);
            lemma_byte_len_take(v@, k + 1);
        }
        cur = cur + char_width(v[k]);
        k += 1;
    }
    cur
}

/// The place of the first `c` at or after `from`, or the length of `v`.
fn find_from(v: &Vec<char>, from: usize, c: char) -> (r: usize)
    requires
        from <= v.len(),
    ensures
        from <= r <= v.len(),
        r - from == index_of(v@.skip(from as int), c),
{
    let ghost s = v@.skip(from as int);
    let mut i: usize = from;
    while i < v.len()
        invariant
            from <= i <= v.len(),
            s == v@.skip(from as int),
            forall|k: int| 0 <= k < i - from ==> s[k] != c,
        decreases v.len() - i,
    {
        assert(s[i - from] == v@[i as int]);
        if v[i] == c {
            proof {
                lemma_index_of_unique(s, c, i - from);
            }
            return i;
        }
        i += 1;
    }
    proof {
        lemma_index_of_unique(s, c, s.len() as int);
    }
    i
}

fn hex_digit_of(c: char) -> (r: Option<u64>)
    ensures
        match r {
            Some(d) => is_hex(c) && d == hex_digit(c),
            None => !is_hex(c),
        },
{
    let n: u32 = c as u32;
    if '0' <= c && c <= '9' {
        Some((n - 0x30) as u64)
    } else if 'a' <= c && c <= 'f' {
        Some((n - 0x61 + 10) as u64)
    } else if 'A' <= c && c <= 'F' {
        Some((n - 0x41 + 10) as u64)
    } else {
        None
    }
}

/// The number that `v[from..to]` denotes in hexadecimal.
fn parse_hex(v: &Vec<char>, from: usize, to: usize) -> (r: Option<u32>)
    requires
        from <= to <= v.len(),
    ensures
        r == hex_number(v@.subrange(from as int, to as int)),
{
    let ghost s = v@.subrange(from as int, to as int);
    let start: usize = if from < to && v[from] == '+' {
        from + 1
    } else {
        from
    };
    let ghost d = v@.subrange(start as int, to as int);
    proof {
        if from < to {
            assert(s[0] == v@[from as int]);
        }
        assert(d == if s.len() > 0 && s[0] == '+' {
            s.skip(1)
        } else {
            s
        });
    }
    if start == to {
        return None;
    }
    let mut acc: u64 = 0;
    let mut over = false;
    let mut i: usize = start;
    while i < to
        invariant
            start <= i <= to <= v.len(),
            d == v@.subrange(start as int, to as int),
            s == v@.subrange(from as int, to as int),
            d == (if s.len() > 0 && s[0] == '+' {
                s.skip(1)
            } else {
                s
            }),
            forall|k: int| 0 <= k < i - start ==> is_hex(#[trigger] d[k]),
            acc <= 0xffff_ffff,
            !over ==> acc == hex_value(d.take(i - start)),
            over ==> hex_value(d.take(i - start)) > 0xffff_ffff,
        decreases to - i,
    {
        assert(d[i - start] == v@[i as int]);
        proof {
            assert(d.take(i - start + 1).drop_last() == d.take(i - start));
            assert(d.take(i - start + 1).last() == v@[i as int]);
        }
        match hex_digit_of(v[i]) {
            None => {
                assert(!is_hex(d[i - start]));
                return None;
            },
            Some(digit) => {
                if !over {
                    acc = acc * 16 + digit;
                    if acc > 0xffff_ffff {
                        over = true;
                        acc = 0;
                    }
                }
            },
        }
        i += 1;
    }
    assert(d.take(d.len() as int) == d);
    if over {
        None
    } else {
        Some(acc as u32)
    }
}

/// The character that a numeric reference denotes.
fn numeric_entity(v: &Vec<char>, from: usize, to: usize, pos: usize) -> (r: Result<
    Txt,
    ValidatorError,
>)
    requires
        from <= to <= v.len(),
        pos < usize::MAX,
    ensures
        piece_of(r) == numeric_piece(pos as nat, v@.subrange(from as int, to as int)),
{
    let ghost t = v@.subrange(from as int, to as int);
    if from == to {
        return Err(ValidatorError::InvalidOrUnclosedEntity { span: Span::new(pos, pos) });
    }
    assert(t[0] == v@[from as int]);
    if v[from] == 'x' {
        let pos = pos + 1;
        assert(t.skip(1) == v@.subrange(from + 1, to as int));
        match parse_hex(v, from + 1, to) {
            Some(c) => match std::char::from_u32(c) {
                Some(ch) => Ok(Txt::Char(pos, ch)),
                None => Err(ValidatorError::InvalidOrUnclosedEntity { span: Span::new(pos, pos) }),
            },
            None => Err(ValidatorError::InvalidOrUnclosedEntity { span: Span::new(pos, pos) }),
        }
    } else {
        let digits = string_of(v, from, to);
        match parse_u32(digits.as_str()) {
            Some(c) => match std::char::from_u32(c) {
                Some(ch) => Ok(Txt::Char(pos, ch)),
                None => Err(ValidatorError::InvalidOrUnclosedEntity { span: Span::new(pos, pos) }),
            },
            None => Err(ValidatorError::InvalidOrUnclosedEntity { span: Span::new(pos, pos) }),
        }
    }
}

/// Puts the reference that starts at `v[j]` into `out`, and gives the place
/// after it, or `None` where the reference is not well formed.
fn take_reference(
    v: &Vec<char>,
    j: usize,
    off: usize,
    pos: usize,
    out: &mut Vec<Result<Txt, ValidatorError>>,
) -> (r: Option<usize>)
    requires
        0 < j <= v.len(),
        off == byte_len(v@.take(j as int)),
        pos + byte_len(v@) < usize::MAX,
    ensures
        match r {
            Some(next) => j < next <= v.len() && shown(final(out)@) + pieces(
                pos as nat,
                v@,
                next as int,
            ) == shown(old(out)@) + reference(pos as nat, v@, j as int),
            None => shown(final(out)@) == shown(old(out)@) + reference(pos as nat, v@, j as int),
        },
{
    let n = v.len();
    let ghost mid = shown(out@);
    proof {
        lemma_byte_len_take(v@, j as int);
    }
    let s = find_from(v, j, ';');
    if s == n {
        out.push(
            Err(
                ValidatorError::InvalidOrUnclosedEntity { span: Span::new(pos + off - 1, pos + off) },
            ),
        );
        assert(shown(out@) =~= mid + reference(pos as nat, v@, j as int));
        return None;
    }
    let ghost name = v@.subrange(j as int, s as int);
    assert(name.len() > 0 ==> name[0] == v@[j as int]);
    let item = if j < s && v[j] == '#' {
        assert(name.skip(1) == v@.subrange(j + 1, s as int));
        numeric_entity(v, j + 1, s, off + pos)
    } else {
        Ok(Txt::Entity(off + pos, string_of(v, j, s)))
    };
    let failed = item.is_err();
    let ghost piece = piece_of(item);
    assert(failed == (piece is Invalid));
    out.push(item);
    assert(shown(out@) =~= mid.push(piece));
    if failed {
        assert(shown(out@) =~= mid + reference(pos as nat, v@, j as int));
        None
    } else {
        assert(mid + (seq![piece] + pieces(pos as nat, v@, s + 1)) =~= shown(out@) + pieces(
            pos as nat,
            v@,
            s + 1,
        ));
        Some(s + 1)
    }
}

/// Puts the run of text that starts at `v[i]` into `out`, and gives the
/// place of the `&` that ends it, or the length of `v`.
fn take_text(
    v: &Vec<char>,
    i: usize,
    off: usize,
    pos: usize,
    out: &mut Vec<Result<Txt, ValidatorError>>,
) -> (a: usize)
    requires
        i < v.len(),
        off == byte_len(v@.take(i as int)),
        pos + byte_len(v@) < usize::MAX,
    ensures
        i <= a <= v.len(),
        a < v.len() ==> shown(final(out)@) + reference(pos as nat, v@, a + 1) == shown(old(out)@)
            + pieces(pos as nat, v@, i as int),
        a == v.len() ==> shown(final(out)@) == shown(old(out)@) + pieces(
            pos as nat,
            v@,
            i as int,
        ),
{
    let ghost before = shown(out@);
    let a = find_from(v, i, '&');
    proof {
        lemma_byte_len_take(v@, i as int);
    }
    let ghost head = Piece::Text(
        (pos + byte_len(v@.take(i as int))) as nat,
        v@.subrange(i as int, a as int),
    );
    out.push(Ok(Txt::Text(off + pos, string_of(v, i, a))));
    assert(shown(out@) =~= before.push(head));
    if a < v.len() {
        assert(before + (seq![head] + reference(pos as nat, v@, a + 1)) =~= shown(out@)
            + reference(pos as nat, v@, a + 1));
    } else {
        assert(shown(out@) =~= before + seq![head]);
    }
    a
}

/// The parts of `text`, which stands at offset `pos` of the document: runs
/// of text and references, up to the first reference that is not well
/// formed.
pub fn parse_entities(pos: usize, text: &str) -> (r: Vec<Result<Txt, ValidatorError>>)
    requires
        pos + byte_len(text@) < usize::MAX,
    ensures
        shown(r@) == pieces(pos as nat, text@, 0),
{
    let v = chars_of(text);
    let n = v.len();
    let mut out: Vec<Result<Txt, ValidatorError>> = Vec::new();
    let mut i: usize = 0;
    let mut off: usize = 0;
    assert(v@.take(0) =~= Seq::empty());
    assert(shown(out@) =~= Seq::empty());
    while i < n
        invariant
            i <= n,
            n == v.len(),
            v@ == text@,
            pos + byte_len(v@) < usize::MAX,
            off == byte_len(v@.take(i as int)),
            pieces(pos as nat, v@, 0) == shown(out@) + pieces(pos as nat, v@, i as int),
        decreases n - i,
    {
        let a = take_text(&v, i, off, pos, &mut out);
        if a == n {
            return out;
        }
        let j = a + 1;
        off = offset_at(&v, i, j, off);
        match take_reference(&v, j, off, pos, &mut out) {
            None => {
                return out;
            },
            Some(next) => {
                off = offset_at(&v, j, next, off);
                i = next;
            },
        }
    }
    assert(shown(out@) + pieces(pos as nat, v@, i as int) =~= shown(out@));
    out
}

} // verus!
