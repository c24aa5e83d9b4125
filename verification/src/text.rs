//! Characters, whitespace and word splitting.

use vstd::prelude::*;

verus! {

/// `String::push` appends one character.
pub assume_specification[ std::string::String::push ](s: &mut std::string::String, c: char)
    ensures
        final(s)@ == old(s)@.push(c),
;

/// Equality of string slices is equality of their character sequences.
pub assume_specification[ <str as PartialEq>::eq ](a: &str, b: &str) -> (r: bool)
    ensures
        r == (a@ == b@),
;

/// Whether two string slices hold the same characters.
pub fn str_eq(a: &str, b: &str) -> (r: bool)
    ensures
        r == (a@ == b@),
{
    a.eq(b)
}

/// The sets of characters that count as blank in the different lexical rules.
#[derive(Clone, Copy, PartialEq, Eq, Structural, Debug)]
pub enum Blank {
    /// The XML white space characters `S`.
    Xml,
    /// ASCII white space: the XML ones and form feed.
    Ascii,
    /// Every character with the Unicode `White_Space` property.
    Unicode,
}

/// XML white space: space, tab, carriage return, line feed.
pub open spec fn is_space(c: char) -> bool {
    c == ' ' || c == '\t' || c == '\r' || c == '\n'
}

/// The characters with the Unicode `White_Space` property.
pub open spec fn is_unicode_space(c: char) -> bool {
    let n = c as u32;
    (0x09 <= n <= 0x0d) || n == 0x20 || n == 0x85 || n == 0xa0 || n == 0x1680 || (0x2000 <= n
        <= 0x200a) || n == 0x2028 || n == 0x2029 || n == 0x202f || n == 0x205f || n == 0x3000
}

pub open spec fn is_blank(kind: Blank, c: char) -> bool {
    match kind {
        Blank::Xml => is_space(c),
        Blank::Ascii => is_space(c) || c == '\x0c',
        Blank::Unicode => is_unicode_space(c),
    }
}

/// Every character of `s` is XML white space.
pub open spec fn all_space(s: Seq<char>) -> bool {
    forall|i: int| 0 <= i < s.len() ==> is_space(#[trigger] s[i])
}

/// Number of characters after the last blank of `s`.
pub open spec fn tail_len(s: Seq<char>, kind: Blank) -> nat
    decreases s.len(),
{
    if s.len() == 0 || is_blank(kind, s.last()) {
        0
    } else {
        1 + tail_len(s.drop_last(), kind)
    }
}

/// The maximal runs of non-blank characters of `s`, in order.
pub open spec fn words(s: Seq<char>, kind: Blank) -> Seq<Seq<char>>
    decreases s.len(),
{
    if s.len() == 0 {
        Seq::empty()
    } else if is_blank(kind, s.last()) {
        words(s.drop_last(), kind)
    } else {
        let n = tail_len(s, kind) as int;
        if 1 <= n <= s.len() {
            words(s.take(s.len() - n), kind).push(s.skip(s.len() - n))
        } else {
            Seq::empty()
        }
    }
}

/// The words of `s` joined by single spaces.
pub open spec fn join_words(w: Seq<Seq<char>>) -> Seq<char>
    decreases w.len(),
{
    if w.len() == 0 {
        Seq::empty()
    } else if w.len() == 1 {
        w[0]
    } else {
        join_words(w.drop_last()) + seq![' '] + w.last()
    }
}

/// White space collapsed: leading and trailing blanks removed, inner runs
/// replaced by one space.
pub open spec fn normalized(s: Seq<char>) -> Seq<char> {
    join_words(words(s, Blank::Xml))
}

pub proof fn lemma_tail_len_bound(s: Seq<char>, kind: Blank)
    ensures
        tail_len(s, kind) <= s.len(),
        tail_len(s, kind) > 0 <==> (s.len() > 0 && !is_blank(kind, s.last())),
    decreases s.len(),
{
    if s.len() > 0 && !is_blank(kind, s.last()) {
        lemma_tail_len_bound(s.drop_last(), kind);
    }
}

pub fn is_whitespace_char(c: char) -> (r: bool)
    ensures
        r == is_space(c),
{
    c == ' ' || c == '\t' || c == '\r' || c == '\n'
}

pub fn is_blank_char(kind: Blank, c: char) -> (r: bool)
    ensures
        r == is_blank(kind, c),
{
    match kind {
        Blank::Xml => is_whitespace_char(c),
        Blank::Ascii => is_whitespace_char(c) || c == '\x0c',
        Blank::Unicode => {
            let n: u32 = c as u32;
            (0x09 <= n && n <= 0x0d) || n == 0x20 || n == 0x85 || n == 0xa0 || n == 0x1680 || (
            0x2000 <= n && n <= 0x200a) || n == 0x2028 || n == 0x2029 || n == 0x202f || n
                == 0x205f || n == 0x3000
        },
    }
}

pub fn is_whitespace_str(s: &str) -> (r: bool)
    ensures
        r == all_space(s@),
{
    let mut ok = true;
    for c in it: s.chars()
        invariant
            ok == (forall|i: int| 0 <= i < it.index() ==> is_space(#[trigger] s@[i])),
            it.seq() == s@,
    {
        if !is_whitespace_char(c) {
            ok = false;
        }
    }
    ok
}

/// `xml::common::is_whitespace_str`: true when every character is one of
/// space, tab, carriage return and line feed.
#[verifier::external_body]
pub(crate) fn xml_is_whitespace_str(s: &str) -> (r: bool)
    ensures
        r == all_space(s@),
{
    xml::common::is_whitespace_str(s)
}

/// The characters of `s` as a vector.
pub fn chars_of(s: &str) -> (v: Vec<char>)
    ensures
        v@ == s@,
{
    let mut v: Vec<char> = Vec::new();
    for c in it: s.chars()
        invariant
            v@ == s@.take(it.index() as int),
            it.seq() == s@,
    {
        v.push(c);
        assert(s@.take(it.index() + 1) == s@.take(it.index() as int).push(s@[it.index() as int]));
    }
    assert(s@.take(s@.len() as int) == s@);
    v
}

/// The string made of `v[from..to]`.
pub fn string_of(v: &Vec<char>, from: usize, to: usize) -> (s: String)
    requires
        from <= to <= v.len(),
    ensures
        s@ == v@.subrange(from as int, to as int),
{
    let mut s = String::new();
    let mut i: usize = from;
    while i < to
        invariant
            from <= i <= to <= v.len(),
            s@ == v@.subrange(from as int, i as int),
        decreases to - i,
    {
        s.push(v[i]);
        assert(v@.subrange(from as int, i + 1) == v@.subrange(from as int, i as int).push(
            v@[i as int],
        ));
        i += 1;
    }
    s
}

/// Splits `s` into its words.
pub fn split_words(s: &str, kind: Blank) -> (r: Vec<String>)
    ensures
        r@.len() == words(s@, kind).len(),
        forall|i: int| 0 <= i < r@.len() ==> (#[trigger] r@[i])@ == words(s@, kind)[i],
{
    let mut done: Vec<String> = Vec::new();
    let mut cur = String::new();
    let ghost mut shown: Seq<Seq<char>> = Seq::empty();
    for c in it: s.chars()
        invariant
            it.seq() == s@,
            cur@ == s@.take(it.index() as int).skip(
                it.index() - tail_len(s@.take(it.index() as int), kind),
            ),
            shown == words(
                s@.take(it.index() as int).take(
                    it.index() - tail_len(s@.take(it.index() as int), kind),
                ),
                kind,
            ),
            done@.len() == shown.len(),
            forall|i: int| 0 <= i < done@.len() ==> (#[trigger] done@[i])@ == shown[i],
    {
        let ghost before = s@.take(it.index() as int);
        let ghost after = s@.take(it.index() + 1);
        proof {
            lemma_tail_len_bound(before, kind);
            lemma_tail_len_bound(after, kind);
            assert(after.drop_last() == before);
            assert(after.last() == c);
        }
        if is_blank_char(kind, c) {
            if !cur.as_str().is_empty() {
                proof {
                    shown = shown.push(cur@);
                }
                done.push(cur);
                cur = String::new();
            }
            proof {
                let n = tail_len(before, kind) as int;
                assert(before.take(before.len() as int) == before);
                assert(after.take(after.len() as int) == after);
                assert(after.skip(after.len() as int) == Seq::<char>::empty());
                assert(words(after, kind) == words(before, kind));
                if n > 0 {
                    assert(words(before, kind) == words(before.take(before.len() - n), kind).push(
                        before.skip(before.len() - n),
                    ));
                }
            }
        } else {
            cur.push(c);
            proof {
                let n = tail_len(before, kind) as int;
                assert(after.skip(after.len() - (n + 1)) == before.skip(before.len() - n).push(c));
                assert(after.take(after.len() - (n + 1)) == before.take(before.len() - n));
            }
        }
    }
    proof {
        lemma_tail_len_bound(s@, kind);
        assert(s@.take(s@.len() as int) == s@);
        let n = tail_len(s@, kind) as int;
        if n > 0 {
            assert(words(s@, kind) == words(s@.take(s@.len() - n), kind).push(
                s@.skip(s@.len() - n),
            ));
        }
    }
    if !cur.as_str().is_empty() {
        done.push(cur);
    }
    done
}

/// Collapses the white space of `s`.
pub fn normalize_whitespace(s: &str) -> (r: String)
    ensures
        r@ == normalized(s@),
{
    let parts = split_words(s, Blank::Xml);
    let ghost w = words(s@, Blank::Xml);
    let mut out = String::new();
    let mut i: usize = 0;
    while i < parts.len()
        invariant
            i <= parts.len(),
            w == words(s@, Blank::Xml),
            parts@.len() == w.len(),
            forall|k: int| 0 <= k < parts@.len() ==> (#[trigger] parts@[k])@ == w[k],
            out@ == join_words(w.take(i as int)),
        decreases parts.len() - i,
    {
        if i > 0 {
            out.push(' ');
        }
        out.append(parts[i].as_str());
        proof {
            let next = w.take(i + 1);
            assert(next.drop_last() == w.take(i as int));
            assert(next.last() == w[i as int]);
            if i == 0 {
                assert(next[0] == w[0]);
                assert(w.take(0).len() == 0);
                assert(out@ == w[0]);
            }
        }
        i += 1;
    }
    proof {
        assert(w.take(w.len() as int) == w);
    }
    out
}

/// Index of the first `c` in `s`, or the length of `s` when there is none.
pub open spec fn index_of(s: Seq<char>, c: char) -> int
    decreases s.len(),
{
    if s.len() == 0 {
        0
    } else if s[0] == c {
        0
    } else {
        1 + index_of(s.drop_first(), c)
    }
}

pub proof fn lemma_index_of(s: Seq<char>, c: char)
    ensures
        0 <= index_of(s, c) <= s.len(),
        index_of(s, c) < s.len() ==> s[index_of(s, c)] == c,
        forall|j: int| 0 <= j < index_of(s, c) ==> s[j] != c,
    decreases s.len(),
{
    if s.len() > 0 && s[0] != c {
        let t = s.drop_first();
        lemma_index_of(t, c);
        assert forall|j: int| 0 <= j < index_of(s, c) implies s[j] != c by {
            if j > 0 {
                assert(t[j - 1] == s[j]);
            }
        }
    }
}

pub proof fn lemma_index_of_unique(s: Seq<char>, c: char, i: int)
    requires
        0 <= i <= s.len(),
        i < s.len() ==> s[i] == c,
        forall|j: int| 0 <= j < i ==> s[j] != c,
    ensures
        index_of(s, c) == i,
{
    lemma_index_of(s, c);
    let k = index_of(s, c);
    if k < i {
        assert(s[k] != c);
    }
}

/// Position of the first `c` in `v`, if any.
pub fn find_char(v: &Vec<char>, c: char) -> (r: Option<usize>)
    ensures
        match r {
            Some(i) => i < v.len() && i == index_of(v@, c),
            None => index_of(v@, c) == v.len(),
        },
{
    let mut i: usize = 0;
    while i < v.len()
        invariant
            i <= v.len(),
            forall|j: int| 0 <= j < i ==> v@[j] != c,
        decreases v.len() - i,
    {
        if v[i] == c {
            proof {
                lemma_index_of_unique(v@, c, i as int);
            }
            return Some(i);
        }
        i += 1;
    }
    proof {
        lemma_index_of_unique(v@, c, v.len() as int);
    }
    None
}

/// The character of a decimal digit.
pub open spec fn digit_char(d: nat) -> char {
    ((48 + d) as u8) as char
}

/// A number in decimal digits.
pub open spec fn decimal(n: nat) -> Seq<char>
    decreases n,
{
    if n < 10 {
        seq![digit_char(n)]
    } else {
        decimal(n / 10).push(digit_char(n % 10))
    }
}

/// Appends `n` in decimal digits.
pub fn push_decimal(out: &mut String, n: usize)
    ensures
        final(out)@ == old(out)@ + decimal(n as nat),
    decreases n,
{
    if n >= 10 {
        push_decimal(out, n / 10);
    }
    let d: u8 = (n % 10) as u8;
    out.push((48 + d) as char);
    assert(out@ =~= old(out)@ + decimal(n as nat));
}

/// The number of characters of `s`.
pub fn char_count(s: &str) -> (n: usize)
    ensures
        n == s@.len(),
{
    s.unicode_len()
}

} // verus!
