//! The events of an XML document, as the tokenizer gives them.

use vstd::prelude::*;
use vstd::utf8::encode_utf8;
use crate::pool::LimitError;
use crate::span::Span;

verus! {

#[verifier::external_type_specification]
#[verifier::external_body]
pub struct ExTokenizer<'a>(xmlparser::Tokenizer<'a>);

#[verifier::external_type_specification]
#[verifier::external_body]
pub struct ExXmlToken<'a>(xmlparser::Token<'a>);

#[verifier::external_type_specification]
#[verifier::external_body]
pub struct ExXmlError(xmlparser::Error);

/// A piece of the document: its text and the offset at which it starts.
#[derive(Debug)]
pub struct StrSpan {
    pub text: String,
    pub start: usize,
}

/// A piece of the document over characters: its text and the offset at
/// which it starts.
pub struct Part {
    pub text: Seq<char>,
    pub start: usize,
}

impl Part {
    /// The offset after the last byte, or the largest offset if that cannot
    /// be counted.
    pub open spec fn finish(self) -> usize {
        if self.start + encode_utf8(self.text).len() <= usize::MAX {
            (self.start + encode_utf8(self.text).len()) as usize
        } else {
            usize::MAX
        }
    }

    /// A piece that stands nowhere in the document.
    pub open spec fn nowhere() -> Part {
        Part { text: Seq::empty(), start: 0 }
    }
}

impl View for StrSpan {
    type V = Part;

    open spec fn view(&self) -> Part {
        Part { text: self.text@, start: self.start }
    }
}

impl StrSpan {
    pub fn new(text: String, start: usize) -> (r: StrSpan)
        ensures
            r.text == text,
            r.start == start,
    {
        StrSpan { text, start }
    }

    /// A piece that stands nowhere in the document.
    pub fn from(text: &str) -> (r: StrSpan)
        ensures
            r.text@ == text@,
            r.start == 0,
    {
        StrSpan { text: text.to_owned(), start: 0 }
    }

    pub fn as_str(&self) -> (r: &str)
        ensures
            r@ == self.text@,
    {
        self.text.as_str()
    }

    pub fn start(&self) -> (r: usize)
        ensures
            r == self.start,
    {
        self.start
    }

    /// The offset after the last byte, or the largest offset if that cannot
    /// be counted.
    pub open spec fn finish(&self) -> usize {
        self@.finish()
    }

    /// The offset after the last byte, or the largest offset if that cannot
    /// be counted.
    pub fn end(&self) -> (r: usize)
        ensures
            r == self.finish(),
    {
        let n = self.text.as_str().as_bytes().len();
        match self.start.checked_add(n) {
            Some(e) => e,
            None => usize::MAX,
        }
    }

    /// The range of offsets that the piece covers.
    pub fn span(&self) -> (r: Span)
        ensures
            r == (Span { start: self.start, end: self.finish() }),
    {
        Span::new(self.start, self.end())
    }

    /// A copy of the piece.
    pub fn copy(&self) -> (r: StrSpan)
        ensures
            r@ == self@,
    {
        StrSpan { text: self.text.clone(), start: self.start }
    }
}

/// How a tag ends.
#[derive(Debug)]
pub enum ElementEnd {
    /// `>` of a start tag.
    Open,
    /// An end tag, with the prefix and the local name.
    Close(StrSpan, StrSpan),
    /// `/>`.
    Empty,
}

/// What an entity is declared as.
#[derive(Debug)]
pub enum EntityDefinition {
    EntityValue(StrSpan),
    ExternalId,
}

/// An event of the document.
#[derive(Debug)]
pub enum XmlToken {
    Declaration { span: Span },
    ProcessingInstruction { span: Span },
    Comment { span: Span },
    DtdStart { span: Span },
    EmptyDtd { span: Span },
    EntityDeclaration { name: StrSpan, definition: EntityDefinition, span: Span },
    DtdEnd { span: Span },
    ElementStart { prefix: StrSpan, local: StrSpan, span: Span },
    Attribute { prefix: StrSpan, local: StrSpan, value: StrSpan, span: Span },
    ElementEnd { end: ElementEnd, span: Span },
    Text { text: StrSpan },
    Cdata { text: StrSpan, span: Span },
}

/// How a tag ends, over characters.
pub enum EndView {
    Open,
    Close(Part, Part),
    Empty,
}

/// An event of the document over characters: every piece with its text and
/// the offset at which it starts.
pub enum TokenView {
    Declaration { span: Span },
    ProcessingInstruction { span: Span },
    Comment { span: Span },
    DtdStart { span: Span },
    EmptyDtd { span: Span },
    EntityDeclaration { name: Part, definition: Option<Part>, span: Span },
    DtdEnd { span: Span },
    ElementStart { prefix: Part, local: Part, span: Span },
    Attribute { prefix: Part, local: Part, value: Part, span: Span },
    ElementEnd { end: EndView, span: Span },
    Text { text: Part },
    Cdata { text: Part, span: Span },
}

impl View for XmlToken {
    type V = TokenView;

    open spec fn view(&self) -> TokenView {
        match self {
            XmlToken::Declaration { span } => TokenView::Declaration { span: *span },
            XmlToken::ProcessingInstruction { span } => TokenView::ProcessingInstruction {
                span: *span,
            },
            XmlToken::Comment { span } => TokenView::Comment { span: *span },
            XmlToken::DtdStart { span } => TokenView::DtdStart { span: *span },
            XmlToken::EmptyDtd { span } => TokenView::EmptyDtd { span: *span },
            XmlToken::EntityDeclaration { name, definition, span } => TokenView::EntityDeclaration {
                name: name@,
                definition: match definition {
                    EntityDefinition::EntityValue(v) => Some(v@),
                    EntityDefinition::ExternalId => None,
                },
                span: *span,
            },
            XmlToken::DtdEnd { span } => TokenView::DtdEnd { span: *span },
            XmlToken::ElementStart { prefix, local, span } => TokenView::ElementStart {
                prefix: prefix@,
                local: local@,
                span: *span,
            },
            XmlToken::Attribute { prefix, local, value, span } => TokenView::Attribute {
                prefix: prefix@,
                local: local@,
                value: value@,
                span: *span,
            },
            XmlToken::ElementEnd { end, span } => TokenView::ElementEnd {
                end: match end {
                    ElementEnd::Open => EndView::Open,
                    ElementEnd::Close(p, l) => EndView::Close(p@, l@),
                    ElementEnd::Empty => EndView::Empty,
                },
                span: *span,
            },
            XmlToken::Text { text } => TokenView::Text { text: text@ },
            XmlToken::Cdata { text, span } => TokenView::Cdata { text: text@, span: *span },
        }
    }
}

/// Why a document is refused.
#[derive(Debug)]
pub enum ValidatorError {
    /// The document is not well formed; with the message of the tokenizer
    /// and the row and column.
    Xml { message: String, row: u32, col: u32 },
    /// The schema does not allow this event here.
    NotAllowed(XmlToken),
    UndefinedNamespacePrefix { prefix: StrSpan },
    UndefinedEntity { name: String, span: Span },
    InvalidOrUnclosedEntity { span: Span },
    /// The validator ran into one of its limits.
    Limit(LimitError),
}

/// The kinds of events.
#[derive(Clone, Copy, PartialEq, Eq, Structural, Debug)]
pub enum TokenKind {
    Declaration,
    ProcessingInstruction,
    Comment,
    DtdStart,
    EmptyDtd,
    EntityDeclaration,
    DtdEnd,
    ElementStart,
    Attribute,
    ElementEnd,
    Text,
    Cdata,
}

/// The ways in which a tag ends, and for an entity declaration whether it
/// gives a value.
#[derive(Clone, Copy, PartialEq, Eq, Structural, Debug)]
pub enum TokenDetail {
    Open,
    Close,
    Empty,
    EntityValue,
    Other,
}

/// The events that a tokenizer still holds, in their order, each as a value
/// of this library. An error of the tokenizer is the last of them.
pub uninterp spec fn pending_events(t: xmlparser::Tokenizer) -> Seq<Result<XmlToken, ValidatorError>>;

/// The first of the events, if there is one.
pub open spec fn head(events: Seq<Result<XmlToken, ValidatorError>>) -> Option<
    Result<XmlToken, ValidatorError>,
> {
    if events.len() == 0 {
        None
    } else {
        Some(events[0])
    }
}

/// The first of the events, if there is one and it is no error.
pub open spec fn first_event(events: Seq<Result<XmlToken, ValidatorError>>) -> Option<XmlToken> {
    match head(events) {
        Some(Ok(evt)) => Some(evt),
        _ => None,
    }
}

/// The error that stands first among the events, if one does.
pub open spec fn first_error(events: Seq<Result<XmlToken, ValidatorError>>) -> Option<
    ValidatorError,
> {
    match head(events) {
        Some(Err(e)) => Some(e),
        _ => None,
    }
}

/// The events without the first.
pub open spec fn rest(events: Seq<Result<XmlToken, ValidatorError>>) -> Seq<
    Result<XmlToken, ValidatorError>,
> {
    if events.len() == 0 {
        events
    } else {
        events.drop_first()
    }
}

/// A part of the first event, where there is one and it has the part.
pub open spec fn part<A>(
    events: Seq<Result<XmlToken, ValidatorError>>,
    of: spec_fn(XmlToken) -> Option<A>,
) -> Option<A> {
    match first_event(events) {
        Some(evt) => of(evt),
        None => None,
    }
}

/// `Iterator::next` on a copy of the tokenizer (`Clone::clone`), which
/// leaves the tokenizer as it is: which variant of `xmlparser::Token` the
/// first event is.
#[verifier::external_body]
pub(crate) fn peek_kind(tokenizer: &xmlparser::Tokenizer) -> (r: Option<TokenKind>)
    ensures
        r == part(pending_events(*tokenizer), |e: XmlToken| Some(e.kind())),
{
    Some(match tokenizer.clone().next()?.ok()? {
        xmlparser::Token::Declaration { .. } => TokenKind::Declaration,
        xmlparser::Token::ProcessingInstruction { .. } => TokenKind::ProcessingInstruction,
        xmlparser::Token::Comment { .. } => TokenKind::Comment,
        xmlparser::Token::DtdStart { .. } => TokenKind::DtdStart,
        xmlparser::Token::EmptyDtd { .. } => TokenKind::EmptyDtd,
        xmlparser::Token::EntityDeclaration { .. } => TokenKind::EntityDeclaration,
        xmlparser::Token::DtdEnd { .. } => TokenKind::DtdEnd,
        xmlparser::Token::ElementStart { .. } => TokenKind::ElementStart,
        xmlparser::Token::Attribute { .. } => TokenKind::Attribute,
        xmlparser::Token::ElementEnd { .. } => TokenKind::ElementEnd,
        xmlparser::Token::Text { .. } => TokenKind::Text,
        xmlparser::Token::Cdata { .. } => TokenKind::Cdata,
    })
}

/// `Iterator::next` on a copy of the tokenizer: which variant of
/// `xmlparser::ElementEnd` or `xmlparser::EntityDefinition` the first event
/// holds.
#[verifier::external_body]
pub(crate) fn peek_detail(tokenizer: &xmlparser::Tokenizer) -> (r: Option<TokenDetail>)
    ensures
        r == part(pending_events(*tokenizer), |e: XmlToken| Some(e.detail())),
{
    Some(match tokenizer.clone().next()?.ok()? {
        xmlparser::Token::ElementEnd { end: xmlparser::ElementEnd::Open, .. } => TokenDetail::Open,
        xmlparser::Token::ElementEnd { end: xmlparser::ElementEnd::Close(..), .. } => {
            TokenDetail::Close
        },
        xmlparser::Token::ElementEnd { end: xmlparser::ElementEnd::Empty, .. } => TokenDetail::Empty,
        xmlparser::Token::EntityDeclaration {
            definition: xmlparser::EntityDefinition::EntityValue(_),
            ..
        } => TokenDetail::EntityValue,
        _ => TokenDetail::Other,
    })
}

/// `Iterator::next` on a copy of the tokenizer: the offsets that the `span`
/// of the first event covers. A text has none.
#[verifier::external_body]
pub(crate) fn peek_span(tokenizer: &xmlparser::Tokenizer) -> (r: Option<Span>)
    ensures
        r == part(pending_events(*tokenizer), |e: XmlToken| e.frame()),
{
    let s = match tokenizer.clone().next()?.ok()? {
        xmlparser::Token::Declaration { span, .. }
        | xmlparser::Token::ProcessingInstruction { span, .. }
        | xmlparser::Token::Comment { span, .. }
        | xmlparser::Token::DtdStart { span, .. }
        | xmlparser::Token::EmptyDtd { span, .. }
        | xmlparser::Token::EntityDeclaration { span, .. }
        | xmlparser::Token::DtdEnd { span, .. }
        | xmlparser::Token::ElementStart { span, .. }
        | xmlparser::Token::Attribute { span, .. }
        | xmlparser::Token::ElementEnd { span, .. }
        | xmlparser::Token::Cdata { span, .. } => span,
        xmlparser::Token::Text { .. } => return None,
    };
    Some(Span { start: s.start(), end: s.end() })
}

/// `Iterator::next` on a copy of the tokenizer: the first piece that the
/// first event holds, which is a prefix, the name of an entity, or a text.
#[verifier::external_body]
pub(crate) fn peek_first(tokenizer: &xmlparser::Tokenizer) -> (r: Option<StrSpan>)
    ensures
        r == part(pending_events(*tokenizer), |e: XmlToken| e.first()),
{
    let s = match tokenizer.clone().next()?.ok()? {
        xmlparser::Token::ElementStart { prefix, .. }
        | xmlparser::Token::Attribute { prefix, .. }
        | xmlparser::Token::ElementEnd { end: xmlparser::ElementEnd::Close(prefix, _), .. } => {
            prefix
        },
        xmlparser::Token::EntityDeclaration { name, .. } => name,
        xmlparser::Token::Text { text } | xmlparser::Token::Cdata { text, .. } => text,
        _ => return None,
    };
    Some(StrSpan { text: s.as_str().to_string(), start: s.start() })
}

/// `Iterator::next` on a copy of the tokenizer: the second piece that the
/// first event holds, which is a local name or the value of an entity.
#[verifier::external_body]
pub(crate) fn peek_second(tokenizer: &xmlparser::Tokenizer) -> (r: Option<StrSpan>)
    ensures
        r == part(pending_events(*tokenizer), |e: XmlToken| e.second()),
{
    let s = match tokenizer.clone().next()?.ok()? {
        xmlparser::Token::ElementStart { local, .. }
        | xmlparser::Token::Attribute { local, .. }
        | xmlparser::Token::ElementEnd { end: xmlparser::ElementEnd::Close(_, local), .. } => {
            local
        },
        xmlparser::Token::EntityDeclaration {
            definition: xmlparser::EntityDefinition::EntityValue(value),
            ..
        } => value,
        _ => return None,
    };
    Some(StrSpan { text: s.as_str().to_string(), start: s.start() })
}

/// `Iterator::next` on a copy of the tokenizer: the value of the attribute
/// that the first event is.
#[verifier::external_body]
pub(crate) fn peek_value(tokenizer: &xmlparser::Tokenizer) -> (r: Option<StrSpan>)
    ensures
        r == part(pending_events(*tokenizer), |e: XmlToken| e.value()),
{
    let s = match tokenizer.clone().next()?.ok()? {
        xmlparser::Token::Attribute { value, .. } => value,
        _ => return None,
    };
    Some(StrSpan { text: s.as_str().to_string(), start: s.start() })
}

/// `Iterator::next` on a copy of the tokenizer: the error that stands
/// first, with its message (`to_string`) and the row and column of its
/// position (`pos`).
#[verifier::external_body]
pub(crate) fn peek_error(tokenizer: &xmlparser::Tokenizer) -> (r: Option<ValidatorError>)
    ensures
        r == first_error(pending_events(*tokenizer)),
        r matches Some(e) ==> e is Xml,
{
    match tokenizer.clone().next()? {
        Err(e) => Some(
            ValidatorError::Xml { message: e.to_string(), row: e.pos().row, col: e.pos().col },
        ),
        Ok(_) => None,
    }
}

/// `Iterator::next` of the tokenizer: the first event leaves it. A
/// tokenizer that holds no event stays as it is.
#[verifier::external_body]
pub(crate) fn advance(tokenizer: &mut xmlparser::Tokenizer)
    ensures
        pending_events(*final(tokenizer)) == rest(pending_events(*old(tokenizer))),
{
    tokenizer.next();
}

/// The first event that the tokenizer holds, as a value of this library;
/// the tokenizer keeps it.
pub(crate) fn convert_event(tokenizer: &xmlparser::Tokenizer) -> (r: Option<
    Result<XmlToken, ValidatorError>,
>)
    ensures
        r == head(pending_events(*tokenizer)),
        r matches Some(Err(e)) ==> e is Xml,
{
    let kind = match peek_kind(tokenizer) {
        Some(kind) => kind,
        None => {
            return match peek_error(tokenizer) {
                Some(e) => Some(Err(e)),
                None => None,
            };
        },
    };
    let ghost evt = first_event(pending_events(*tokenizer))->Some_0;
    let span = peek_span(tokenizer);
    let r = match kind {
        TokenKind::Declaration => XmlToken::Declaration { span: span.unwrap() },
        TokenKind::ProcessingInstruction => XmlToken::ProcessingInstruction { span: span.unwrap() },
        TokenKind::Comment => XmlToken::Comment { span: span.unwrap() },
        TokenKind::DtdStart => XmlToken::DtdStart { span: span.unwrap() },
        TokenKind::EmptyDtd => XmlToken::EmptyDtd { span: span.unwrap() },
        TokenKind::EntityDeclaration => {
            let definition = match peek_detail(tokenizer).unwrap() {
                TokenDetail::EntityValue => EntityDefinition::EntityValue(
                    peek_second(tokenizer).unwrap(),
                ),
                _ => EntityDefinition::ExternalId,
            };
            XmlToken::EntityDeclaration {
                name: peek_first(tokenizer).unwrap(),
                definition,
                span: span.unwrap(),
            }
        },
        TokenKind::DtdEnd => XmlToken::DtdEnd { span: span.unwrap() },
        TokenKind::ElementStart => XmlToken::ElementStart {
            prefix: peek_first(tokenizer).unwrap(),
            local: peek_second(tokenizer).unwrap(),
            span: span.unwrap(),
        },
        TokenKind::Attribute => XmlToken::Attribute {
            prefix: peek_first(tokenizer).unwrap(),
            local: peek_second(tokenizer).unwrap(),
            value: peek_value(tokenizer).unwrap(),
            span: span.unwrap(),
        },
        TokenKind::ElementEnd => {
            let end = match peek_detail(tokenizer).unwrap() {
                TokenDetail::Open => ElementEnd::Open,
                TokenDetail::Close => ElementEnd::Close(
                    peek_first(tokenizer).unwrap(),
                    peek_second(tokenizer).unwrap(),
                ),
                _ => ElementEnd::Empty,
            };
            XmlToken::ElementEnd { end, span: span.unwrap() }
        },
        TokenKind::Text => XmlToken::Text { text: peek_first(tokenizer).unwrap() },
        TokenKind::Cdata => XmlToken::Cdata {
            text: peek_first(tokenizer).unwrap(),
            span: span.unwrap(),
        },
    };
    assert(r == evt);
    Some(Ok(r))
}

impl XmlToken {
    /// A copy of the event.
    pub fn copy(&self) -> (r: XmlToken)
        ensures
            r@ == self@,
    {
        match self {
            XmlToken::Declaration { span } => XmlToken::Declaration { span: *span },
            XmlToken::ProcessingInstruction { span } => XmlToken::ProcessingInstruction { span: *span },
            XmlToken::Comment { span } => XmlToken::Comment { span: *span },
            XmlToken::DtdStart { span } => XmlToken::DtdStart { span: *span },
            XmlToken::EmptyDtd { span } => XmlToken::EmptyDtd { span: *span },
            XmlToken::EntityDeclaration { name, definition, span } => XmlToken::EntityDeclaration {
                name: name.copy(),
                definition: match definition {
                    EntityDefinition::EntityValue(v) => EntityDefinition::EntityValue(v.copy()),
                    EntityDefinition::ExternalId => EntityDefinition::ExternalId,
                },
                span: *span,
            },
            XmlToken::DtdEnd { span } => XmlToken::DtdEnd { span: *span },
            XmlToken::ElementStart { prefix, local, span } => XmlToken::ElementStart {
                prefix: prefix.copy(),
                local: local.copy(),
                span: *span,
            },
            XmlToken::Attribute { prefix, local, value, span } => XmlToken::Attribute {
                prefix: prefix.copy(),
                local: local.copy(),
                value: value.copy(),
                span: *span,
            },
            XmlToken::ElementEnd { end, span } => XmlToken::ElementEnd {
                end: match end {
                    ElementEnd::Open => ElementEnd::Open,
                    ElementEnd::Close(p, l) => ElementEnd::Close(p.copy(), l.copy()),
                    ElementEnd::Empty => ElementEnd::Empty,
                },
                span: *span,
            },
            XmlToken::Text { text } => XmlToken::Text { text: text.copy() },
            XmlToken::Cdata { text, span } => XmlToken::Cdata { text: text.copy(), span: *span },
        }
    }

    /// The offsets that the event covers.
    pub open spec fn extent(self) -> Span {
        match self {
            XmlToken::Declaration { span } => span,
            XmlToken::ProcessingInstruction { span } => span,
            XmlToken::Comment { span } => span,
            XmlToken::DtdStart { span } => span,
            XmlToken::EmptyDtd { span } => span,
            XmlToken::EntityDeclaration { span, .. } => span,
            XmlToken::DtdEnd { span } => span,
            XmlToken::ElementStart { span, .. } => span,
            XmlToken::Attribute { span, .. } => span,
            XmlToken::ElementEnd { span, .. } => span,
            XmlToken::Text { text } => Span { start: text.start, end: text.finish() },
            XmlToken::Cdata { span, .. } => span,
        }
    }

    /// The offsets that the event covers.
    pub fn span(&self) -> (r: Span)
        ensures
            r == self.extent(),
    {
        match self {
            XmlToken::Declaration { span } => *span,
            XmlToken::ProcessingInstruction { span } => *span,
            XmlToken::Comment { span } => *span,
            XmlToken::DtdStart { span } => *span,
            XmlToken::EmptyDtd { span } => *span,
            XmlToken::EntityDeclaration { span, .. } => *span,
            XmlToken::DtdEnd { span } => *span,
            XmlToken::ElementStart { span, .. } => *span,
            XmlToken::Attribute { span, .. } => *span,
            XmlToken::ElementEnd { span, .. } => *span,
            XmlToken::Text { text } => Span::new(text.start(), text.end()),
            XmlToken::Cdata { span, .. } => *span,
        }
    }

    /// How the tag ends that the event is, or whether the entity that it
    /// declares has a value.
    pub open spec fn detail(self) -> TokenDetail {
        match self {
            XmlToken::ElementEnd { end: ElementEnd::Open, .. } => TokenDetail::Open,
            XmlToken::ElementEnd { end: ElementEnd::Close(_, _), .. } => TokenDetail::Close,
            XmlToken::ElementEnd { end: ElementEnd::Empty, .. } => TokenDetail::Empty,
            XmlToken::EntityDeclaration {
                definition: EntityDefinition::EntityValue(_),
                ..
            } => TokenDetail::EntityValue,
            _ => TokenDetail::Other,
        }
    }

    /// The offsets that the event is said to cover. A text says none.
    pub open spec fn frame(self) -> Option<Span> {
        match self {
            XmlToken::Declaration { span } => Some(span),
            XmlToken::ProcessingInstruction { span } => Some(span),
            XmlToken::Comment { span } => Some(span),
            XmlToken::DtdStart { span } => Some(span),
            XmlToken::EmptyDtd { span } => Some(span),
            XmlToken::EntityDeclaration { span, .. } => Some(span),
            XmlToken::DtdEnd { span } => Some(span),
            XmlToken::ElementStart { span, .. } => Some(span),
            XmlToken::Attribute { span, .. } => Some(span),
            XmlToken::ElementEnd { span, .. } => Some(span),
            XmlToken::Text { .. } => None,
            XmlToken::Cdata { span, .. } => Some(span),
        }
    }

    /// The first piece that the event holds: a prefix, the name of an
    /// entity, or a text.
    pub open spec fn first(self) -> Option<StrSpan> {
        match self {
            XmlToken::ElementStart { prefix, .. } => Some(prefix),
            XmlToken::Attribute { prefix, .. } => Some(prefix),
            XmlToken::ElementEnd { end: ElementEnd::Close(prefix, _), .. } => Some(prefix),
            XmlToken::EntityDeclaration { name, .. } => Some(name),
            XmlToken::Text { text } => Some(text),
            XmlToken::Cdata { text, .. } => Some(text),
            _ => None,
        }
    }

    /// The second piece that the event holds: a local name, or the value of
    /// an entity.
    pub open spec fn second(self) -> Option<StrSpan> {
        match self {
            XmlToken::ElementStart { local, .. } => Some(local),
            XmlToken::Attribute { local, .. } => Some(local),
            XmlToken::ElementEnd { end: ElementEnd::Close(_, local), .. } => Some(local),
            XmlToken::EntityDeclaration {
                definition: EntityDefinition::EntityValue(value),
                ..
            } => Some(value),
            _ => None,
        }
    }

    /// The value of the attribute that the event is.
    pub open spec fn value(self) -> Option<StrSpan> {
        match self {
            XmlToken::Attribute { value, .. } => Some(value),
            _ => None,
        }
    }

    pub open spec fn kind(self) -> TokenKind {
        match self {
            XmlToken::Declaration { .. } => TokenKind::Declaration,
            XmlToken::ProcessingInstruction { .. } => TokenKind::ProcessingInstruction,
            XmlToken::Comment { .. } => TokenKind::Comment,
            XmlToken::DtdStart { .. } => TokenKind::DtdStart,
            XmlToken::EmptyDtd { .. } => TokenKind::EmptyDtd,
            XmlToken::EntityDeclaration { .. } => TokenKind::EntityDeclaration,
            XmlToken::DtdEnd { .. } => TokenKind::DtdEnd,
            XmlToken::ElementStart { .. } => TokenKind::ElementStart,
            XmlToken::Attribute { .. } => TokenKind::Attribute,
            XmlToken::ElementEnd { .. } => TokenKind::ElementEnd,
            XmlToken::Text { .. } => TokenKind::Text,
            XmlToken::Cdata { .. } => TokenKind::Cdata,
        }
    }
}

} // verus!
