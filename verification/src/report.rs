//! What is told of a validation: the patterns that could come next, the
//! description of an error, and the patterns of the pool as text.

use vstd::prelude::*;
use crate::model::{NameClass, NameSet};
use crate::pool::{Pat, PatId, Pool, Schema};
use crate::span::Span;
use crate::text::{decimal, push_decimal};
use crate::token::{TokenKind, ValidatorError, XmlToken};
use crate::validator::Validator;

verus! {

impl Pool {
    /// The patterns that react to the next event of a document that pattern
    /// `id` has to match, after those of `acc`: attributes, elements and
    /// data, each once, found through choices, interleaves, groups (the
    /// second part only where the first is not nullable), repetitions,
    /// lists and open elements, `fuel` levels deep.
    pub open spec fn heads(self, acc: Seq<Pat>, id: PatId, fuel: nat) -> Seq<Pat>
        decreases fuel,
    {
        if fuel == 0 {
            acc
        } else {
            let f = (fuel - 1) as nat;
            match self.node(id) {
                Pat::Choice(pa, pb, _) => self.heads(self.heads(acc, pa, f), pb, f),
                Pat::Interleave(pa, pb, _) => self.heads(self.heads(acc, pa, f), pb, f),
                Pat::Group(pa, pb, _) => if self.is_nullable(pa) {
                    self.heads(acc, pa, f)
                } else {
                    self.heads(self.heads(acc, pa, f), pb, f)
                },
                Pat::OneOrMore(p, _) => self.heads(acc, p, f),
                Pat::List(p) => self.heads(acc, p, f),
                Pat::After(p, _) => self.heads(acc, p, f),
                Pat::Empty | Pat::Text | Pat::NotAllowed | Pat::Placeholder(_) => acc,
                pat => if acc.contains(pat) {
                    acc
                } else {
                    acc.push(pat)
                },
            }
        }
    }
}

/// A name class in words: a name, `uri:*`, `*`, with `-` before what is
/// excepted and `|` between alternatives.
pub open spec fn described(nc: NameSet) -> Seq<char>
    decreases nc,
{
    match nc {
        NameSet::Named { name, .. } => name,
        NameSet::NsName { namespace_uri, except } => namespace_uri + seq![':', '*'] + match except {
            Some(e) => seq!['-'] + described(*e),
            None => Seq::empty(),
        },
        NameSet::AnyName { except } => seq!['*'] + match except {
            Some(e) => seq!['-'] + described(*e),
            None => Seq::empty(),
        },
        NameSet::Alt { a, b } => described(*a) + seq!['|'] + described(*b),
    }
}

/// At most this many elements are named in a description.
pub const MAX_ELEMENTS: usize = 4;

/// The description after one more element, whose name class has the number
/// `n`, where `count` elements were described before.
pub open spec fn expected_step(pool: Pool, n: u32, count: nat, text: Seq<char>) -> Seq<char> {
    let intro = if count == 0 {
        text + "Element "@
    } else {
        text
    };
    let name = if n < pool.names.len() {
        described(pool.names[n as int])
    } else {
        Seq::empty()
    };
    if count >= MAX_ELEMENTS {
        intro
    } else if count > 0 {
        intro.push(' ') + name
    } else {
        intro + name
    }
}

/// The description of the elements among `heads[k..]`, after `text`, which
/// describes `count` elements: the first four are named, the rest counted.
pub open spec fn expected_from(
    pool: Pool,
    heads: Seq<Pat>,
    k: int,
    count: nat,
    text: Seq<char>,
) -> (nat, Seq<char>)
    decreases heads.len() - k,
{
    if k < 0 || k >= heads.len() {
        (count, text)
    } else {
        match heads[k] {
            Pat::Element(n, _) => expected_from(
                pool,
                heads,
                k + 1,
                count + 1,
                expected_step(pool, n, count, text),
            ),
            _ => expected_from(pool, heads, k + 1, count, text),
        }
    }
}

/// What a document could go on with where pattern `id` is to be matched.
pub open spec fn expected_text(pool: Pool, id: PatId) -> Seq<char> {
    let found = expected_from(
        pool,
        pool.heads(Seq::empty(), id, pool.nodes.len() + 1),
        0,
        0,
        Seq::empty(),
    );
    if found.0 > MAX_ELEMENTS {
        found.1 + " .. or one of "@ + decimal((found.0 - MAX_ELEMENTS) as nat) + " more"@
    } else {
        found.1
    }
}

pub fn describe_nameclass(nc: &NameClass, desc: &mut String)
    ensures
        final(desc)@ == old(desc)@ + described(nc@),
    decreases nc,
{
    match nc {
        NameClass::Named { namespace_uri: _, name } => {
            desc.append(name.as_str());
        },
        NameClass::NsName { namespace_uri, except } => {
            desc.append(namespace_uri.as_str());
            desc.push(':');
            desc.push('*');
            if let Some(except) = except {
                desc.push('-');
                describe_nameclass(except, desc);
            }
            assert(desc@ =~= old(desc)@ + described(nc@));
        },
        NameClass::AnyName { except } => {
            desc.push('*');
            if let Some(except) = except {
                desc.push('-');
                describe_nameclass(except, desc);
            }
            assert(desc@ =~= old(desc)@ + described(nc@));
        },
        NameClass::Alt { a, b } => {
            describe_nameclass(a, desc);
            desc.push('|');
            describe_nameclass(b, desc);
            assert(desc@ =~= old(desc)@ + described(nc@));
        },
    }
}

fn holds(found: &Vec<Pat>, pat: Pat) -> (r: bool)
    ensures
        r == found@.contains(pat),
{
    let mut i: usize = 0;
    while i < found.len()
        invariant
            i <= found.len(),
            forall|k: int| 0 <= k < i ==> found@[k] != pat,
        decreases found.len() - i,
    {
        if found[i] == pat {
            return true;
        }
        i += 1;
    }
    false
}

impl<'a> Schema<'a> {
    /// Adds the patterns that react to the next event of a document that
    /// pattern `p` has to match.
    pub fn head(&self, result: &mut Vec<Pat>, p: PatId, fuel: usize)
        requires
            self.wf(),
            self@.has(p),
        ensures
            final(result)@ == self@.heads(old(result)@, p, fuel as nat),
        decreases fuel,
    {
        if fuel == 0 {
            return ;
        }
        let fuel = fuel - 1;
        assert(self@.pat_ok(self@.nodes[p.0 as int]));
        let pat = self.patt(p);
        match pat {
            Pat::Choice(pa, pb, _) => {
                self.head(result, pa, fuel);
                self.head(result, pb, fuel);
            },
            Pat::Interleave(pa, pb, _) => {
                self.head(result, pa, fuel);
                self.head(result, pb, fuel);
            },
            Pat::Group(pa, pb, _) => {
                if self.nullable(pa) {
                    self.head(result, pa, fuel);
                } else {
                    self.head(result, pa, fuel);
                    self.head(result, pb, fuel);
                }
            },
            Pat::OneOrMore(p, _) => self.head(result, p, fuel),
            Pat::Empty => {},
            Pat::Text => {},
            Pat::NotAllowed => {},
            Pat::Placeholder(_) => {},
            Pat::List(p) => self.head(result, p, fuel),
            Pat::After(p, _) => self.head(result, p, fuel),
            _ => {
                if !holds(result, pat) {
                    result.push(pat);
                }
            },
        }
    }

    /// The patterns that react to the next event of a document that
    /// pattern `id` has to match.
    pub fn heads(&self, id: PatId) -> (r: Vec<Pat>)
        requires
            self.wf(),
            self@.has(id),
        ensures
            r@ == self@.heads(Seq::empty(), id, self@.nodes.len() + 1),
    {
        let mut result: Vec<Pat> = Vec::new();
        self.head(&mut result, id, self.len() + 1);
        result
    }

    /// What a document could go on with where pattern `expected_patt` is to
    /// be matched: the names of up to four elements, and how many more
    /// there are.
    pub fn describe_expected(&self, expected_patt: PatId) -> (r: String)
        requires
            self.wf(),
            self@.has(expected_patt),
        ensures
            r@ == expected_text(self@, expected_patt),
    {
        let heads = self.heads(expected_patt);
        let mut result = String::new();
        let mut count: usize = 0;
        let mut k: usize = 0;
        while k < heads.len()
            invariant
                k <= heads.len(),
                count <= k,
                self.wf(),
                expected_from(self@, heads@, 0, 0, Seq::empty()) == expected_from(
                    self@,
                    heads@,
                    k as int,
                    count as nat,
                    result@,
                ),
            decreases heads.len() - k,
        {
            let ghost before = result@;
            if let Pat::Element(n, _) = heads[k] {
                if count == 0 {
                    result.append("Element ");
                }
                if count < MAX_ELEMENTS {
                    if count > 0 {
                        result.push(' ');
                    }
                    if (n as usize) < self.names_len() {
                        describe_nameclass(self.name_class(n), &mut result);
                    }
                    assert(result@ =~= expected_step(self@, n, count as nat, before));
                }
                count += 1;
            }
            k += 1;
        }
        if count > MAX_ELEMENTS {
            result.append(" .. or one of ");
            push_decimal(&mut result, count - MAX_ELEMENTS);
            result.append(" more");
        }
        result
    }
}

/// How grave a diagnostic is.
#[derive(Clone, Copy, PartialEq, Eq, Structural, Debug)]
pub enum Level {
    Error,
    Help,
}

/// A place in the document: a range of offsets, or a line.
#[derive(Clone, Copy, PartialEq, Eq, Structural, Debug)]
pub enum Place {
    Offsets(Span),
    Line(u32),
}

/// A place that a diagnostic points to, with what is said of it.
#[derive(Debug)]
pub struct SpanLabel {
    pub place: Place,
    pub label: Option<String>,
}

/// A message about a document.
#[derive(Debug)]
pub struct Diagnostic {
    pub level: Level,
    pub message: String,
    pub spans: Vec<SpanLabel>,
}

/// A message about a document over character sequences: the level, the
/// message, and the places it points to, each with its label.
pub struct Report {
    pub level: Level,
    pub message: Seq<char>,
    pub places: Seq<(Place, Option<Seq<char>>)>,
}

/// A place with its label over character sequences.
pub open spec fn labelled(s: SpanLabel) -> (Place, Option<Seq<char>>) {
    (
        s.place,
        match s.label {
            Some(l) => Some(l@),
            None => None,
        },
    )
}

impl View for Diagnostic {
    type V = Report;

    open spec fn view(&self) -> Report {
        Report {
            level: self.level,
            message: self.message@,
            places: Seq::new(self.spans@.len(), |i: int| labelled(self.spans@[i])),
        }
    }
}

/// The name of a kind of event in messages.
pub open spec fn kind_name(kind: TokenKind) -> &'static str {
    match kind {
        TokenKind::Declaration => "declaration",
        TokenKind::ProcessingInstruction => "processing-instruction",
        TokenKind::Comment => "comment",
        TokenKind::DtdStart => "dtd-start",
        TokenKind::EmptyDtd => "empty-dtd",
        TokenKind::EntityDeclaration => "entity-declaration",
        TokenKind::DtdEnd => "dtd-end",
        TokenKind::ElementStart => "element-start",
        TokenKind::Attribute => "attribute",
        TokenKind::ElementEnd => "element-end",
        TokenKind::Text => "text",
        TokenKind::Cdata => "cdata",
    }
}

/// The message for a limit that was met.
pub open spec fn limit_name(e: crate::pool::LimitError) -> &'static str {
    match e {
        crate::pool::LimitError::PoolFull => "The schema needs more patterns than the validator can hold",
        crate::pool::LimitError::TooDeep => "The patterns of the schema are nested too deeply",
        crate::pool::LimitError::Unresolved => "The schema refers to a definition that is missing",
        crate::pool::LimitError::NotAfter => "The validator lost track of the open elements",
        crate::pool::LimitError::TooLong => "The text is longer than the validator can count",
    }
}

/// The messages about the error `err` of a validation that has to match
/// pattern `current` of `pool`: the error at its place, and for an event
/// that is not allowed a hint at what is expected.
pub open spec fn diagnosed(pool: Pool, current: PatId, err: ValidatorError) -> Seq<Report> {
    match err {
        ValidatorError::Xml { message, row, .. } => seq![
            Report {
                level: Level::Error,
                message: message@,
                places: seq![(Place::Line(row), None)],
            },
        ],
        ValidatorError::NotAllowed(tok) => seq![
            Report {
                level: Level::Error,
                message: kind_name(tok.kind())@ + " not expected here"@,
                places: seq![(Place::Offsets(tok.extent()), Some("Not allowed"@))],
            },
            Report {
                level: Level::Help,
                message: if expected_text(pool, current).len() == 0 {
                    "Remove this"@
                } else {
                    "Expected "@ + expected_text(pool, current)
                },
                places: Seq::empty(),
            },
        ],
        ValidatorError::UndefinedNamespacePrefix { prefix } => seq![
            Report {
                level: Level::Error,
                message: "The prefix \""@ + prefix.text@ + "\" is not defined"@,
                places: seq![
                    (
                        Place::Offsets(Span { start: prefix.start, end: prefix.finish() }),
                        Some(
                            "Add an xmlns:"@ + prefix.text@
                                + "=\"..\" attribute to define this prefix"@,
                        ),
                    ),
                ],
            },
        ],
        ValidatorError::UndefinedEntity { name, span } => seq![
            Report {
                level: Level::Error,
                message: "The entity &\""@ + name@ + "\"; is not defined"@,
                places: seq![(Place::Offsets(span), Some("undefined"@))],
            },
        ],
        ValidatorError::InvalidOrUnclosedEntity { span } => seq![
            Report {
                level: Level::Error,
                message: "Invalid or unclosed entity reference"@,
                places: seq![(Place::Offsets(span), None)],
            },
        ],
        ValidatorError::Limit(e) => seq![
            Report { level: Level::Error, message: limit_name(e)@, places: Seq::empty() },
        ],
    }
}

/// The messages of diagnostics over character sequences.
pub open spec fn reports(d: Seq<Diagnostic>) -> Seq<Report> {
    Seq::new(d.len(), |i: int| d[i]@)
}

fn name_of_kind(tok: &XmlToken) -> (r: &'static str)
    ensures
        r == kind_name(tok.kind()),
{
    match tok {
        XmlToken::Declaration { .. } => "declaration",
        XmlToken::ProcessingInstruction { .. } => "processing-instruction",
        XmlToken::Comment { .. } => "comment",
        XmlToken::DtdStart { .. } => "dtd-start",
        XmlToken::EmptyDtd { .. } => "empty-dtd",
        XmlToken::EntityDeclaration { .. } => "entity-declaration",
        XmlToken::DtdEnd { .. } => "dtd-end",
        XmlToken::ElementStart { .. } => "element-start",
        XmlToken::Attribute { .. } => "attribute",
        XmlToken::ElementEnd { end: _, .. } => "element-end",
        XmlToken::Text { .. } => "text",
        XmlToken::Cdata { .. } => "cdata",
    }
}

fn name_of_limit(e: crate::pool::LimitError) -> (r: &'static str)
    ensures
        r == limit_name(e),
{
    match e {
        crate::pool::LimitError::PoolFull => "The schema needs more patterns than the validator can hold",
        crate::pool::LimitError::TooDeep => "The patterns of the schema are nested too deeply",
        crate::pool::LimitError::Unresolved => "The schema refers to a definition that is missing",
        crate::pool::LimitError::NotAfter => "The validator lost track of the open elements",
        crate::pool::LimitError::TooLong => "The text is longer than the validator can count",
    }
}

/// A diagnostic that points to one place.
fn pointed(level: Level, message: String, place: Place, label: Option<String>) -> (r: Diagnostic)
    ensures
        r@ == (Report {
            level,
            message: message@,
            places: seq![
                (
                    place,
                    match label {
                        Some(l) => Some(l@),
                        None => None,
                    },
                ),
            ],
        }),
{
    let mut spans: Vec<SpanLabel> = Vec::new();
    spans.push(SpanLabel { place, label });
    let r = Diagnostic { level, message, spans };
    assert(r@.places =~= seq![labelled(SpanLabel { place, label })]);
    r
}

/// A diagnostic that points to no place.
fn plain(level: Level, message: String) -> (r: Diagnostic)
    ensures
        r@ == (Report { level, message: message@, places: Seq::empty() }),
{
    let r = Diagnostic { level, message, spans: Vec::new() };
    assert(r@.places =~= Seq::empty());
    r
}

impl<'a, 's> Validator<'a, 's> {
    /// The messages about the error `err` of this validation.
    pub fn diagnostic(&self, err: &ValidatorError) -> (r: Vec<Diagnostic>)
        requires
            self.wf(),
        ensures
            reports(r@) == diagnosed(self@.pool, self@.current, *err),
    {
        let mut diagnostics: Vec<Diagnostic> = Vec::new();
        match err {
            ValidatorError::Xml { message, row, col: _ } => {
                diagnostics.push(pointed(Level::Error, message.clone(), Place::Line(*row), None));
            },
            ValidatorError::NotAllowed(tok) => {
                let mut message = String::new();
                message.append(name_of_kind(tok));
                message.append(" not expected here");
                diagnostics.push(
                    pointed(
                        Level::Error,
                        message,
                        Place::Offsets(tok.span()),
                        Some("Not allowed".to_owned()),
                    ),
                );
                let desc = self.schema().describe_expected(self.current());
                let message = if desc.as_str().is_empty() {
                    "Remove this".to_owned()
                } else {
                    let mut m = "Expected ".to_owned();
                    m.append(desc.as_str());
                    m
                };
                diagnostics.push(plain(Level::Help, message));
            },
            ValidatorError::UndefinedNamespacePrefix { prefix } => {
                let mut label = "Add an xmlns:".to_owned();
                label.append(prefix.as_str());
                label.append("=\"..\" attribute to define this prefix");
                let mut message = "The prefix \"".to_owned();
                message.append(prefix.as_str());
                message.append("\" is not defined");
                diagnostics.push(
                    pointed(
                        Level::Error,
                        message,
                        Place::Offsets(Span::new(prefix.start(), prefix.end())),
                        Some(label),
                    ),
                );
            },
            ValidatorError::UndefinedEntity { name, span } => {
                let mut message = "The entity &\"".to_owned();
                message.append(name.as_str());
                message.append("\"; is not defined");
                diagnostics.push(
                    pointed(Level::Error, message, Place::Offsets(*span), Some("undefined".to_owned())),
                );
            },
            ValidatorError::InvalidOrUnclosedEntity { span } => {
                diagnostics.push(
                    pointed(
                        Level::Error,
                        "Invalid or unclosed entity reference".to_owned(),
                        Place::Offsets(*span),
                        None,
                    ),
                );
            },
            ValidatorError::Limit(e) => {
                diagnostics.push(plain(Level::Error, name_of_limit(*e).to_owned()));
            },
        }
        assert(reports(diagnostics@) =~= diagnosed(self@.pool, self@.current, *err));
        diagnostics
    }
}

} // verus!
