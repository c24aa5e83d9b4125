//! The state of a validation and what each event of a document does to it.

use vstd::prelude::*;
use crate::deriv_tag::Event;
use crate::entities::{pieces, Piece};
use crate::pool::{LimitError, PatId, Pool};
use crate::span::Span;
use crate::stack::{
    att_event, attributes_bound, bound, first_unbound, namespace_of, opened, with_attribute, Frame,
    Read,
};
use crate::token::{ElementEnd, EntityDefinition, Part, TokenView, ValidatorError, XmlToken};

verus! {

/// Why a document is refused, over characters: the message, row and column
/// of an error of the tokenizer, the event that is not allowed, the prefix
/// that is not bound, the name and the place of the entity that is not
/// defined, the place of the reference that is not well formed, or the
/// limit that was met.
pub enum Verdict {
    Xml(Seq<char>, u32, u32),
    NotAllowed(TokenView),
    UndefinedPrefix(Part),
    UndefinedEntity(Seq<char>, Span),
    InvalidEntity(Span),
    Limit(LimitError),
}

/// The attribute `read` as the event that is told when it is not allowed:
/// its local name and its value, both placed where the attribute starts.
pub open spec fn refused_attribute(read: Read) -> TokenView {
    TokenView::Attribute {
        prefix: Part::nowhere(),
        local: Part { text: read.local, start: read.span.start },
        value: Part { text: read.value, start: read.span.start },
        span: read.span,
    }
}

/// The start of the element `top` as the event that is told when it is not
/// allowed: its local name, where that stands.
pub open spec fn refused_element(top: Frame) -> TokenView {
    let local = Part { text: top.local, start: top.local_start };
    TokenView::ElementStart {
        prefix: Part::nowhere(),
        local,
        span: Span { start: local.start, end: local.finish() },
    }
}

impl View for ValidatorError {
    type V = Verdict;

    open spec fn view(&self) -> Verdict {
        match self {
            ValidatorError::Xml { message, row, col } => Verdict::Xml(message@, *row, *col),
            ValidatorError::NotAllowed(t) => Verdict::NotAllowed(t@),
            ValidatorError::UndefinedNamespacePrefix { prefix } => Verdict::UndefinedPrefix(
                prefix@,
            ),
            ValidatorError::UndefinedEntity { name, span } => Verdict::UndefinedEntity(
                name@,
                *span,
            ),
            ValidatorError::InvalidOrUnclosedEntity { span } => Verdict::InvalidEntity(*span),
            ValidatorError::Limit(e) => Verdict::Limit(*e),
        }
    }
}

/// The state of a validation: the pool, the pattern that the rest of the
/// document has to match, whether the last event ended a start tag, the
/// open elements, the entities that are defined (a later definition
/// overrides an earlier one), and the text read since the last tag.
pub struct Machine {
    pub pool: Pool,
    pub current: PatId,
    pub last_was_start: bool,
    pub elements: Seq<Frame>,
    pub entities: Seq<(String, String)>,
    pub buffer: Seq<char>,
}

/// The replacement text of the entity `name`: that of its last definition.
pub open spec fn entity_text(entities: Seq<(String, String)>, name: Seq<char>) -> Option<Seq<char>>
    decreases entities.len(),
{
    if entities.len() == 0 {
        None
    } else if entities.last().0@ == name {
        Some(entities.last().1@)
    } else {
        entity_text(entities.drop_last(), name)
    }
}

/// The text that `parts[i..]` stand for after `done`: references to
/// entities are replaced by their texts, references to characters by the
/// characters. What cannot be resolved is the verdict.
pub open spec fn resolved_text(
    parts: Seq<Piece>,
    i: int,
    entities: Seq<(String, String)>,
    done: Seq<char>,
) -> Result<Seq<char>, Verdict>
    decreases parts.len() - i,
{
    if i < 0 || i >= parts.len() {
        Ok(done)
    } else {
        match parts[i] {
            Piece::Text(_, s) => resolved_text(parts, i + 1, entities, done + s),
            Piece::Entity(pos, name) => match entity_text(entities, name) {
                Some(s) => resolved_text(parts, i + 1, entities, done + s),
                None => Err(
                    Verdict::UndefinedEntity(
                        name,
                        Span {
                            start: pos as usize,
                            end: (Part { text: name, start: pos as usize }).finish(),
                        },
                    ),
                ),
            },
            Piece::Char(_, c) => resolved_text(parts, i + 1, entities, done.push(c)),
            Piece::Invalid(a, b) => Err(
                Verdict::InvalidEntity(Span { start: a as usize, end: b as usize }),
            ),
        }
    }
}

/// What the open elements bind prefixes to.
pub open spec fn binding_in(elements: Seq<Frame>) -> spec_fn(Seq<char>) -> Option<Seq<char>> {
    |p: Seq<char>| bound(elements, p)
}

/// The pattern `pat` after the attributes `attrs[i..]` of the innermost of
/// the open elements, each with a table of its own. The first attribute
/// that is not allowed is the verdict.
pub open spec fn attributes_taken(
    elements: Seq<Frame>,
    pool: Pool,
    pat: PatId,
    attrs: Seq<Read>,
    i: int,
) -> Result<(Pool, PatId), Verdict>
    decreases attrs.len() - i,
{
    if i < 0 || i >= attrs.len() {
        Ok((pool, pat))
    } else {
        let d = pool.att_deriv(
            Map::empty(),
            pat,
            att_event(elements, attrs[i]),
            binding_in(elements),
            pool.nodes.len() + 1,
        );
        match d.result {
            Err(e) => Err(Verdict::Limit(e)),
            Ok(next) => if d.pool.node(next) is NotAllowed {
                Err(Verdict::NotAllowed(refused_attribute(attrs[i])))
            } else {
                attributes_taken(elements, d.pool, next, attrs, i + 1)
            },
        }
    }
}

impl Machine {
    pub open spec fn wf(self) -> bool {
        self.pool.wf() && self.pool.has(self.current)
    }

    /// What the open elements bind prefixes to.
    pub open spec fn binding(self) -> spec_fn(Seq<char>) -> Option<Seq<char>> {
        binding_in(self.elements)
    }

    /// The state after the text that was read is matched, or the verdict.
    /// An event `at` is not allowed where the text before it is not.
    pub open spec fn flushed(self, at: TokenView) -> Result<Machine, Verdict> {
        if self.buffer.len() == 0 {
            Ok(self)
        } else {
            let d = self.pool.text_deriv(
                Map::empty(),
                self.current,
                self.buffer,
                self.binding(),
                self.pool.nodes.len() + 1,
            );
            match d.result {
                Err(e) => Err(Verdict::Limit(e)),
                Ok(next) => if d.pool.node(next) is NotAllowed {
                    Err(Verdict::NotAllowed(at))
                } else {
                    Ok(
                        Machine {
                            pool: d.pool,
                            current: next,
                            last_was_start: false,
                            buffer: Seq::empty(),
                            ..self
                        },
                    )
                },
            }
        }
    }

    /// The pool and the pattern after the name of the innermost element: the
    /// derivative of the current pattern with respect to the start tag.
    pub open spec fn tag_opened(self) -> Result<(Pool, PatId), Verdict> {
        let top = self.elements.last();
        match namespace_of(self.elements, top.prefix) {
            Err(_) => Err(
                Verdict::UndefinedPrefix(Part { text: top.prefix, start: top.prefix_start }),
            ),
            Ok(ns) => {
                let name = Event { ns, local: top.local, value: Seq::empty() };
                let pushed = self.pool.intern(self.pool.node(self.current));
                match pushed.result {
                    Err(e) => Err(Verdict::Limit(e)),
                    Ok(id) => {
                        let d = pushed.pool.open_deriv(
                            Map::empty(),
                            id,
                            name,
                            pushed.pool.nodes.len() + 1,
                        );
                        match d.result {
                            Err(e) => Err(Verdict::Limit(e)),
                            Ok(next) => if d.pool.node(next) is NotAllowed {
                                Err(Verdict::NotAllowed(refused_element(top)))
                            } else {
                                Ok((d.pool, next))
                            },
                        }
                    },
                }
            },
        }
    }

    /// The pool and the pattern after the start tag of the innermost
    /// element: the derivative with respect to its name, then to each of its
    /// attributes, then to the end of the tag. `at` is the event that ends
    /// the tag.
    pub open spec fn tag_taken(self, at: TokenView) -> Result<(Pool, PatId), Verdict> {
        if self.elements.len() == 0 {
            Err(Verdict::NotAllowed(at))
        } else {
            match self.tag_opened() {
                Err(v) => Err(v),
                Ok((opened, next)) => if !attributes_bound(self.elements) {
                    Err(Verdict::UndefinedPrefix(first_unbound(self.elements, 0)))
                } else {
                    match attributes_taken(
                        self.elements,
                        opened,
                        next,
                        self.elements.last().attributes,
                        0,
                    ) {
                        Err(v) => Err(v),
                        Ok((pool, pat)) => {
                            let closed = pool.close_deriv(pat, pool.nodes.len() + 1);
                            match closed.result {
                                Err(e) => Err(Verdict::Limit(e)),
                                Ok(c) => if closed.pool.node(c) is NotAllowed {
                                    Err(Verdict::NotAllowed(at))
                                } else {
                                    Ok((closed.pool, c))
                                },
                            }
                        },
                    }
                },
            }
        }
    }

    /// The state after the end of the innermost element, whose content is
    /// matched by `pat`; where `childless` holds the element had no
    /// children, which counts as one empty text. The element is closed.
    pub open spec fn element_ended(
        self,
        pool: Pool,
        pat: PatId,
        childless: bool,
        at: TokenView,
    ) -> Result<Machine, Verdict> {
        let text = if childless {
            pool.text_deriv(Map::empty(), pat, Seq::empty(), self.binding(), pool.nodes.len() + 1)
        } else {
            crate::deriv_text::Deriv { pool, memo: Map::empty(), result: Ok(pat) }
        };
        match text.result {
            Err(e) => Err(Verdict::Limit(e)),
            Ok(p) => {
                let ended = text.pool.end_deriv(p, text.pool.nodes.len() + 1);
                match ended.result {
                    Err(e) => Err(Verdict::Limit(e)),
                    Ok(new) => if ended.pool.node(new) is NotAllowed {
                        Err(Verdict::NotAllowed(at))
                    } else {
                        Ok(
                            Machine {
                                pool: ended.pool,
                                current: new,
                                last_was_start: false,
                                elements: if self.elements.len() > 0 {
                                    self.elements.drop_last()
                                } else {
                                    self.elements
                                },
                                ..self
                            },
                        )
                    },
                }
            },
        }
    }

    /// The state after the event `evt`, or why the document is refused.
    /// Declarations, comments and processing instructions change nothing; a
    /// start tag and its attributes are noted; the end of the start tag takes
    /// the derivatives of the pattern; text is gathered, with its references
    /// resolved, until the next tag; an end tag closes the element.
    pub open spec fn on(self, evt: XmlToken) -> Result<Machine, Verdict> {
        let at = evt@;
        match evt {
            XmlToken::EmptyDtd { .. }
            | XmlToken::Comment { .. }
            | XmlToken::ProcessingInstruction { .. }
            | XmlToken::Declaration { .. }
            | XmlToken::DtdStart { .. }
            | XmlToken::DtdEnd { .. } => Ok(self),
            XmlToken::ElementStart { prefix, local, span } => match self.flushed(at) {
                Err(v) => Err(v),
                Ok(m) => Ok(Machine { elements: m.elements.push(opened(prefix, local)), ..m }),
            },
            XmlToken::Attribute { prefix, local, value, span } => if self.elements.len() == 0 {
                Err(Verdict::NotAllowed(at))
            } else {
                Ok(
                    Machine {
                        elements: self.elements.drop_last().push(
                            with_attribute(
                                self.elements.last(),
                                Read {
                                    prefix: prefix.text@,
                                    prefix_start: prefix.start,
                                    local: local.text@,
                                    local_start: local.start,
                                    value: value.text@,
                                    value_start: value.start,
                                    span,
                                },
                            ),
                        ),
                        ..self
                    },
                )
            },
            XmlToken::ElementEnd { end: ElementEnd::Open, .. } => match self.tag_taken(at) {
                Err(v) => Err(v),
                Ok((pool, pat)) => Ok(
                    Machine { pool, current: pat, last_was_start: true, ..self },
                ),
            },
            XmlToken::ElementEnd { end: ElementEnd::Close(_, _), .. } => match self.flushed(at) {
                Err(v) => Err(v),
                Ok(m) => m.element_ended(m.pool, m.current, m.last_was_start, at),
            },
            XmlToken::ElementEnd { end: ElementEnd::Empty, .. } => match self.tag_taken(at) {
                Err(v) => Err(v),
                Ok((pool, pat)) => self.element_ended(pool, pat, true, at),
            },
            XmlToken::Cdata { text, .. } => Ok(
                Machine { buffer: self.buffer + text.text@, last_was_start: false, ..self },
            ),
            XmlToken::Text { text } => if text.start + crate::entities::byte_len(text.text@)
                >= usize::MAX {
                Err(Verdict::Limit(LimitError::TooLong))
            } else {
                match resolved_text(
                    pieces(text.start as nat, text.text@, 0),
                    0,
                    self.entities,
                    Seq::empty(),
                ) {
                    Err(v) => Err(v),
                    Ok(s) => Ok(Machine { buffer: self.buffer + s, last_was_start: false, ..self }),
                }
            },
            XmlToken::EntityDeclaration { name, definition, .. } => match definition {
                EntityDefinition::EntityValue(val) => Ok(
                    Machine { entities: self.entities.push((name.text, val.text)), ..self },
                ),
                EntityDefinition::ExternalId => Err(Verdict::NotAllowed(at)),
            },
        }
    }
}

} // verus!
