//! XML names: `NCName`, `Name`, `NMTOKEN`, `NMTOKENS` and the syntax of `QName`.

use vstd::prelude::*;
use crate::text::{chars_of, find_char, index_of, split_words, words, Blank};

verus! {

/// `NameStartChar` of XML 1.0 without the colon.
pub open spec fn nc_name_start(c: char) -> bool {
    let n = c as u32;
    ('A' <= c <= 'Z') || c == '_' || ('a' <= c <= 'z') || (0xc0 <= n <= 0xd6) || (0xd8 <= n
        <= 0xf6) || (0xf8 <= n <= 0x2ff) || (0x370 <= n <= 0x37d) || (0x37f <= n <= 0x1fff) || (
    0x200c <= n <= 0x200d) || (0x2070 <= n <= 0x218f) || (0x2c00 <= n <= 0x2fef) || (0x3001 <= n
        <= 0xd7ff) || (0xf900 <= n <= 0xfdcf) || (0xfdf0 <= n <= 0xfffd) || (0x10000 <= n
        <= 0xeffff)
}

/// `NameChar` of XML 1.0 without the colon.
pub open spec fn nc_name_char(c: char) -> bool {
    let n = c as u32;
    nc_name_start(c) || c == '-' || c == '.' || ('0' <= c <= '9') || n == 0xb7 || (0x300 <= n
        <= 0x36f) || (0x203f <= n <= 0x2040)
}

pub open spec fn name_start(c: char) -> bool {
    c == ':' || nc_name_start(c)
}

pub open spec fn name_char(c: char) -> bool {
    c == ':' || nc_name_char(c)
}

/// A non-empty name without colons.
pub open spec fn is_ncname(s: Seq<char>) -> bool {
    &&& s.len() > 0
    &&& nc_name_start(s[0])
    &&& forall|i: int| 1 <= i < s.len() ==> nc_name_char(#[trigger] s[i])
}

/// An XML `Name`.
pub open spec fn is_name(s: Seq<char>) -> bool {
    &&& s.len() > 0
    &&& name_start(s[0])
    &&& forall|i: int| 1 <= i < s.len() ==> name_char(#[trigger] s[i])
}

/// An XML `Nmtoken`: one or more name characters.
pub open spec fn is_nmtoken(s: Seq<char>) -> bool {
    &&& s.len() > 0
    &&& forall|i: int| 0 <= i < s.len() ==> name_char(#[trigger] s[i])
}

/// One or more name tokens separated by ASCII white space.
pub open spec fn is_nmtokens(s: Seq<char>) -> bool {
    let w = words(s, Blank::Ascii);
    w.len() > 0 && forall|i: int| 0 <= i < w.len() ==> is_nmtoken(#[trigger] w[i])
}

/// `NCName`, or two of them around the first colon.
pub open spec fn is_qname(s: Seq<char>) -> bool {
    let p = index_of(s, ':');
    if p < s.len() {
        is_ncname(s.take(p)) && is_ncname(s.skip(p + 1))
    } else {
        is_ncname(s)
    }
}

pub fn is_nc_name_start_char(c: char) -> (r: bool)
    ensures
        r == nc_name_start(c),
{
    let n: u32 = c as u32;
    ('A' <= c && c <= 'Z') || c == '_' || ('a' <= c && c <= 'z') || (0xc0 <= n && n <= 0xd6) || (
    0xd8 <= n && n <= 0xf6) || (0xf8 <= n && n <= 0x2ff) || (0x370 <= n && n <= 0x37d) || (0x37f
        <= n && n <= 0x1fff) || (0x200c <= n && n <= 0x200d) || (0x2070 <= n && n <= 0x218f) || (
    0x2c00 <= n && n <= 0x2fef) || (0x3001 <= n && n <= 0xd7ff) || (0xf900 <= n && n <= 0xfdcf)
        || (0xfdf0 <= n && n <= 0xfffd) || (0x10000 <= n && n <= 0xeffff)
}

pub fn is_nc_name_char(c: char) -> (r: bool)
    ensures
        r == nc_name_char(c),
{
    let n: u32 = c as u32;
    is_nc_name_start_char(c) || c == '-' || c == '.' || ('0' <= c && c <= '9') || n == 0xb7 || (
    0x300 <= n && n <= 0x36f) || (0x203f <= n && n <= 0x2040)
}

pub fn is_name_start_char(c: char) -> (r: bool)
    ensures
        r == name_start(c),
{
    c == ':' || is_nc_name_start_char(c)
}

pub fn is_name_char(c: char) -> (r: bool)
    ensures
        r == name_char(c),
{
    c == ':' || is_nc_name_char(c)
}

/// Whether `v[from..to]` is an `NCName`.
pub fn is_ncname_range(v: &Vec<char>, from: usize, to: usize) -> (r: bool)
    requires
        from <= to <= v.len(),
    ensures
        r == is_ncname(v@.subrange(from as int, to as int)),
{
    let ghost s = v@.subrange(from as int, to as int);
    if from == to {
        return false;
    }
    if !is_nc_name_start_char(v[from]) {
        assert(s[0] == v@[from as int]);
        return false;
    }
    let mut i: usize = from + 1;
    while i < to
        invariant
            from < i <= to <= v.len(),
            s == v@.subrange(from as int, to as int),
            forall|k: int| 1 <= k < i - from ==> nc_name_char(#[trigger] s[k]),
        decreases to - i,
    {
        if !is_nc_name_char(v[i]) {
            assert(s[i - from] == v@[i as int]);
            return false;
        }
        assert(s[i - from] == v@[i as int]);
        i += 1;
    }
    assert(s[0] == v@[from as int]);
    true
}

pub fn is_valid_ncname(text: &str) -> (r: bool)
    ensures
        r == is_ncname(text@),
{
    let v = chars_of(text);
    assert(v@.subrange(0, v@.len() as int) == v@);
    is_ncname_range(&v, 0, v.len())
}

/// Validate an NMTOKEN (one or more XML NameChars)
pub fn is_valid_nmtoken(text: &str) -> (r: bool)
    ensures
        r == is_nmtoken(text@),
{
    let mut ok = true;
    let mut n: usize = 0;
    for c in it: text.chars()
        invariant
            it.seq() == text@,
            n == if it.index() > 0 { 1usize } else { 0usize },
            ok == (forall|i: int| 0 <= i < it.index() ==> name_char(#[trigger] text@[i])),
    {
        if !is_name_char(c) {
            ok = false;
        }
        n = 1;
    }
    n > 0 && ok
}

/// Validate NMTOKENS (whitespace-separated list of one or more NMTOKENs)
pub fn is_valid_nmtokens(text: &str) -> (r: bool)
    ensures
        r == is_nmtokens(text@),
{
    let tokens = split_words(text, Blank::Ascii);
    let ghost w = words(text@, Blank::Ascii);
    if tokens.len() == 0 {
        return false;
    }
    let mut i: usize = 0;
    while i < tokens.len()
        invariant
            i <= tokens.len(),
            w == words(text@, Blank::Ascii),
            tokens@.len() == w.len(),
            forall|k: int| 0 <= k < tokens@.len() ==> (#[trigger] tokens@[k])@ == w[k],
            forall|k: int| 0 <= k < i ==> is_nmtoken(#[trigger] w[k]),
        decreases tokens.len() - i,
    {
        if !is_valid_nmtoken(tokens[i].as_str()) {
            assert(!is_nmtoken(w[i as int]));
            return false;
        }
        i += 1;
    }
    true
}

/// Validate an XML Name (NameStartChar followed by NameChar*)
pub fn is_valid_name(text: &str) -> (r: bool)
    ensures
        r == is_name(text@),
{
    let mut ok = true;
    let mut n: usize = 0;
    for c in it: text.chars()
        invariant
            it.seq() == text@,
            n == if it.index() > 0 { 1usize } else { 0usize },
            ok == ((it.index() > 0 ==> name_start(text@[0])) && forall|i: int|
                1 <= i < it.index() ==> name_char(#[trigger] text@[i])),
    {
        if n == 0 {
            if !is_name_start_char(c) {
                ok = false;
            }
        } else if !is_name_char(c) {
            ok = false;
        }
        n = 1;
    }
    n > 0 && ok
}

/// Validate QName syntax: NCName or NCName:NCName (no namespace resolution)
pub fn is_valid_qname_syntax(text: &str) -> (r: bool)
    ensures
        r == is_qname(text@),
{
    let v = chars_of(text);
    match find_char(&v, ':') {
        Some(pos) => {
            assert(v@.subrange(0, pos as int) == v@.take(pos as int));
            assert(v@.subrange(pos + 1, v@.len() as int) == v@.skip(pos + 1));
            is_ncname_range(&v, 0, pos) && is_ncname_range(&v, pos + 1, v.len())
        },
        None => {
            assert(v@.subrange(0, v@.len() as int) == v@);
            is_ncname_range(&v, 0, v.len())
        },
    }
}

} // verus!
