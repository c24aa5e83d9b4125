//! Regular expressions: the `pattern` facet and the lexical forms that are
//! given by a regular expression.

use vstd::prelude::*;
use regex::Regex;
use crate::text::str_eq;

verus! {

#[verifier::external_type_specification]
#[verifier::external_body]
pub struct ExRegex(Regex);

#[verifier::external_type_specification]
#[verifier::external_body]
pub struct ExRegexError(regex::Error);

/// Whether `Regex::new` accepts a source text.
pub uninterp spec fn regex_compiles(source: Seq<char>) -> bool;

/// Whether the regular expression compiled from `source` finds a match in
/// `text` (`Regex::is_match`).
pub uninterp spec fn regex_matches(source: Seq<char>, text: Seq<char>) -> bool;

/// A compiled regular expression together with the text it was compiled from.
pub struct Lexical {
    source: String,
    regex: Regex,
}

impl Lexical {
    /// The text that the expression was compiled from.
    pub closed spec fn source(&self) -> Seq<char> {
        self.source@
    }

    /// Whether `text` is matched.
    pub open spec fn matches(&self, text: Seq<char>) -> bool {
        regex_matches(self.source(), text)
    }

    /// `Regex::new` on `source`: it succeeds exactly on the sources named by
    /// `regex_compiles`, and the result then carries `source`.
    #[verifier::external_body]
    pub(crate) fn build(source: String) -> (r: Result<Lexical, regex::Error>)
        ensures
            r is Ok == regex_compiles(source@),
            r matches Ok(l) ==> l.source() == source@,
    {
        match Regex::new(&source) {
            Ok(regex) => Ok(Lexical { source, regex }),
            Err(e) => Err(e),
        }
    }

    /// `Regex::is_match` of the compiled expression on `text`. The fields are
    /// private and `build` alone makes a `Lexical`, so the expression is the
    /// one that `Regex::new` gave for `source`.
    #[verifier::external_body]
    pub(crate) fn is_match(&self, text: &str) -> (r: bool)
        ensures
            r == regex_matches(self.source(), text@),
    {
        self.regex.is_match(text)
    }

    /// The compiled expression that is held.
    pub closed spec fn held(&self) -> Regex {
        self.regex
    }

    /// The compiled expression: the one that `build` made from `source`,
    /// which `is_match` asks.
    pub fn regex(&self) -> (r: &Regex)
        ensures
            *r == self.held(),
    {
        &self.regex
    }
}

/// The message of a `regex::Error` (`to_string`).
#[verifier::external_body]
pub(crate) fn regex_error_text(e: &regex::Error) -> (r: String) {
    e.to_string()
}

/// Compiles `source`; on failure gives the message of the error.
pub fn compile_lexical(source: &str) -> (r: Result<Lexical, String>)
    ensures
        r is Ok == regex_compiles(source@),
        r matches Ok(l) ==> l.source() == source@,
{
    match Lexical::build(source.to_owned()) {
        Ok(l) => Ok(l),
        Err(e) => Err(regex_error_text(&e)),
    }
}

/// `raw` between `^(?:` and `)$`, so that a match covers the whole value.
pub open spec fn anchored(raw: Seq<char>) -> Seq<char> {
    seq!['^', '(', '?', ':'] + raw + seq![')', '$']
}

/// A `pattern` facet: the expression as written, and compiled with anchors.
pub struct PatternFacet {
    raw: String,
    compiled: Lexical,
}

impl PatternFacet {
    /// The expression as it was written.
    pub closed spec fn raw(&self) -> Seq<char> {
        self.raw@
    }

    /// The compiled form is the written one between anchors.
    pub closed spec fn wf(&self) -> bool {
        self.compiled.source() == anchored(self.raw@)
    }

    /// Whether the whole of `text` matches the pattern.
    pub open spec fn admits(&self, text: Seq<char>) -> bool {
        regex_matches(anchored(self.raw()), text)
    }

    /// Compiles the pattern `raw`; on failure gives the message of the error.
    pub fn new(raw: &str) -> (r: Result<PatternFacet, String>)
        ensures
            r is Ok == regex_compiles(anchored(raw@)),
            r matches Ok(p) ==> p.wf() && p.raw() == raw@,
    {
        let mut source = String::new();
        source.push('^');
        source.push('(');
        source.push('?');
        source.push(':');
        source.append(raw);
        source.push(')');
        source.push('$');
        assert(source@ == anchored(raw@));
        match compile_lexical(source.as_str()) {
            Ok(compiled) => Ok(PatternFacet { raw: raw.to_owned(), compiled }),
            Err(e) => Err(e),
        }
    }

    /// Whether the whole of `value` matches the pattern.
    pub fn is_valid(&self, value: &str) -> (r: bool)
        requires
            self.wf(),
        ensures
            r == self.admits(value@),
    {
        self.compiled.is_match(value)
    }

    /// The expression as it was written.
    pub fn as_str(&self) -> (r: &str)
        ensures
            r@ == self.raw(),
    {
        self.raw.as_str()
    }

    /// The compiled form of the pattern.
    pub closed spec fn lexical(&self) -> Lexical {
        self.compiled
    }

    /// The compiled expression: the one that was made from the pattern
    /// between anchors, which `is_valid` asks.
    pub fn regex(&self) -> (r: &Regex)
        ensures
            *r == self.lexical().held(),
    {
        self.compiled.regex()
    }
}

/// Whether `value` passes an optional pattern.
pub open spec fn pattern_admits(p: Option<PatternFacet>, value: Seq<char>) -> bool {
    match p {
        Some(p) => p.admits(value),
        None => true,
    }
}

pub open spec fn pattern_wf(p: Option<PatternFacet>) -> bool {
    match p {
        Some(p) => p.wf(),
        None => true,
    }
}

/// The expression of an optional pattern as it was written.
pub open spec fn raw_of(p: Option<PatternFacet>) -> Option<Seq<char>> {
    match p {
        Some(p) => Some(p.raw()),
        None => None,
    }
}

/// Whether two optional patterns were written the same.
pub fn pattern_same(a: &Option<PatternFacet>, b: &Option<PatternFacet>) -> (r: bool)
    ensures
        r == (raw_of(*a) == raw_of(*b)),
{
    match (a, b) {
        (Some(x), Some(y)) => str_eq(x.as_str(), y.as_str()),
        (None, None) => true,
        _ => false,
    }
}

/// Whether `value` passes an optional pattern.
pub fn pattern_allows(p: &Option<PatternFacet>, value: &str) -> (r: bool)
    requires
        pattern_wf(*p),
    ensures
        r == pattern_admits(*p, value@),
{
    match p {
        Some(p) => p.is_valid(value),
        None => true,
    }
}

} // verus!
