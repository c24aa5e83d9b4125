//! The validator: it takes the events of a document one by one and keeps
//! the pattern that the rest of the document has to match.

use vstd::prelude::*;
use std::collections::HashMap;
use crate::compile::{compiled, pattern_wf};
use crate::deriv_tag::Attr;
use crate::deriv_text::binding_of;
use crate::entities::{parse_entities, shown, text_width, Txt};
use crate::machine::{
    attributes_taken, binding_in, entity_text, resolved_text, Machine, Verdict,
};
use crate::model::{DefineRule, Grammar};
use crate::pool::{LimitError, PatId, Pool, Schema};
use crate::span::Span;
use crate::stack::{att_event, ElementStack};
use crate::text::str_eq;
use crate::token::{
    advance, convert_event, head, pending_events, rest, ElementEnd, EntityDefinition, Part,
    StrSpan, TokenView, ValidatorError, XmlToken,
};

verus! {

/// A validation in progress.
pub struct Validator<'a, 's> {
    schema: Schema<'s>,
    tokenizer: xmlparser::Tokenizer<'a>,
    current_step: PatId,
    last_was_start_element: bool,
    stack: ElementStack,
    entity_definitions: Vec<(String, String)>,
    /// Buffer for accumulating text content that may be split by processing
    /// instructions or CDATA sections. Flushed before non-text events.
    text_buffer: String,
}

impl<'a, 's> View for Validator<'a, 's> {
    type V = Machine;

    closed spec fn view(&self) -> Machine {
        Machine {
            pool: self.schema@,
            current: self.current_step,
            last_was_start: self.last_was_start_element,
            elements: self.stack@,
            entities: self.entity_definitions@,
            buffer: self.text_buffer@,
        }
    }
}

/// The entities that every document has.
pub open spec fn builtin_entities(entities: Seq<(String, String)>) -> bool {
    &&& entities.len() == 5
    &&& entities[0].0@ == "lt"@ && entities[0].1@ == "<"@
    &&& entities[1].0@ == "gt"@ && entities[1].1@ == ">"@
    &&& entities[2].0@ == "amp"@ && entities[2].1@ == "&"@
    &&& entities[3].0@ == "apos"@ && entities[3].1@ == "'"@
    &&& entities[4].0@ == "quot"@ && entities[4].1@ == "\""@
}

/// The replacement text of the entity `name`.
fn lookup_entity<'b>(entities: &'b Vec<(String, String)>, name: &str) -> (r: Option<&'b String>)
    ensures
        match r {
            Some(s) => entity_text(entities@, name@) == Some(s@),
            None => entity_text(entities@, name@) is None,
        },
{
    let mut k: usize = entities.len();
    assert(entities@.take(k as int) == entities@);
    while k > 0
        invariant
            k <= entities.len(),
            entity_text(entities@, name@) == entity_text(entities@.take(k as int), name@),
        decreases k,
    {
        proof {
            let cur = entities@.take(k as int);
            assert(cur.last() == entities@[k - 1]);
            assert(cur.drop_last() == entities@.take(k - 1));
        }
        if str_eq(entities[k - 1].0.as_str(), name) {
            return Some(&entities[k - 1].1);
        }
        k -= 1;
    }
    None
}

/// The text that `parts` stand for, with the references resolved.
fn resolve_parts(parts: &Vec<Result<Txt, ValidatorError>>, entities: &Vec<(String, String)>) -> (r:
    Result<String, ValidatorError>)
    ensures
        match r {
            Ok(s) => resolved_text(shown(parts@), 0, entities@, Seq::empty()) == Ok::<
                Seq<char>,
                Verdict,
            >(s@),
            Err(e) => resolved_text(shown(parts@), 0, entities@, Seq::empty()) == Err::<
                Seq<char>,
                Verdict,
            >(e@),
        },
{
    let mut buffer = String::new();
    let mut i: usize = 0;
    while i < parts.len()
        invariant
            i <= parts.len(),
            resolved_text(shown(parts@), 0, entities@, Seq::empty()) == resolved_text(
                shown(parts@),
                i as int,
                entities@,
                buffer@,
            ),
        decreases parts.len() - i,
    {
        assert(shown(parts@)[i as int] == crate::entities::piece_of(parts@[i as int]));
        match &parts[i] {
            Ok(Txt::Text(_pos, val)) => {
                buffer.append(val.as_str());
            },
            Ok(Txt::Entity(pos, name)) => {
                match lookup_entity(entities, name.as_str()) {
                    Some(txt) => {
                        buffer.append(txt.as_str());
                    },
                    None => {
                        let end = match pos.checked_add(name.as_str().as_bytes().len()) {
                            Some(e) => e,
                            None => usize::MAX,
                        };
                        return Err(
                            ValidatorError::UndefinedEntity {
                                name: name.clone(),
                                span: Span::new(*pos, end),
                            },
                        );
                    },
                }
            },
            Ok(Txt::Char(_pos, val)) => {
                buffer.push(*val);
            },
            Err(ValidatorError::InvalidOrUnclosedEntity { span }) => {
                return Err(ValidatorError::InvalidOrUnclosedEntity { span: *span });
            },
            Err(_) => {
                return Err(ValidatorError::InvalidOrUnclosedEntity { span: Span::new(0, 0) });
            },
        }
        i += 1;
    }
    Ok(buffer)
}

/// The events that are refused for what they are, before anything is done:
/// declarations of entities, attributes and texts.
pub open spec fn refused_outright(evt: XmlToken) -> bool {
    evt is EntityDeclaration || evt is Attribute || evt is Text
}

/// The error for an attribute that is not allowed: it carries the local name
/// and the value of the attribute, both placed where the attribute starts.
fn refuse_attribute(att: &Attr) -> (e: ValidatorError)
    ensures
        e@ == Verdict::NotAllowed(
            TokenView::Attribute {
                prefix: Part::nowhere(),
                local: Part { text: att.name.local_name@, start: att.span.start },
                value: Part { text: att.value@, start: att.span.start },
                span: att.span,
            },
        ),
{
    proof {
        reveal_strlit("");
    }
    let prefix = StrSpan::from("");
    assert(prefix@.text =~= Seq::<char>::empty());
    ValidatorError::NotAllowed(
        XmlToken::Attribute {
            prefix,
            local: StrSpan::new(att.name.local_name.clone(), att.span.start),
            value: StrSpan::new(att.value.clone(), att.span.start),
            span: att.span,
        },
    )
}

/// The error for an element that is not allowed: it carries the local name
/// of the element, where that stands.
fn refuse_element(local: &StrSpan) -> (e: ValidatorError)
    ensures
        e@ == Verdict::NotAllowed(
            TokenView::ElementStart {
                prefix: Part::nowhere(),
                local: local@,
                span: Span { start: local.start, end: local@.finish() },
            },
        ),
{
    proof {
        reveal_strlit("");
    }
    let prefix = StrSpan::from("");
    assert(prefix@.text =~= Seq::<char>::empty());
    ValidatorError::NotAllowed(
        XmlToken::ElementStart {
            prefix,
            local: local.copy(),
            span: Span::new(local.start(), local.end()),
        },
    )
}

impl<'a, 's> Validator<'a, 's> {
    /// The pool is well formed and holds the current pattern.
    pub open spec fn wf(&self) -> bool {
        self@.wf()
    }

    /// The events of the document that the validator has not taken yet.
    pub closed spec fn events(&self) -> Seq<Result<XmlToken, ValidatorError>> {
        pending_events(self.tokenizer)
    }

    /// A validator for the schema whose start is `model`, on the events of
    /// `tokenizer`. The schema is compiled into a pool of its own.
    pub fn new(grammar: &'s Grammar, model: &'s DefineRule, tokenizer: xmlparser::Tokenizer<'a>) -> (r:
        Result<Validator<'a, 's>, LimitError>)
        requires
            grammar.wf(),
            pattern_wf(model.pattern),
        ensures
            match r {
                Ok(v) => {
                    let start = compiled(
                        Pool::empty(),
                        *grammar,
                        model.pattern,
                        grammar.rules@.len(),
                    );
                    &&& v.wf()
                    &&& v.events() == pending_events(tokenizer)
                    &&& start.result == Ok::<PatId, LimitError>(v@.current)
                    &&& v@.pool == start.pool
                    &&& !v@.last_was_start
                    &&& v@.elements.len() == 0
                    &&& builtin_entities(v@.entities)
                    &&& v@.buffer.len() == 0
                },
                Err(e) => compiled(
                    Pool::empty(),
                    *grammar,
                    model.pattern,
                    grammar.rules@.len(),
                ).result == Err::<PatId, LimitError>(e),
            },
    {
        let mut schema = Schema::new();
        let start = schema.compile(grammar, model.pattern(), grammar.rules.len())?;
        let mut entity_definitions: Vec<(String, String)> = Vec::new();
        entity_definitions.push(("lt".to_owned(), "<".to_owned()));
        entity_definitions.push(("gt".to_owned(), ">".to_owned()));
        entity_definitions.push(("amp".to_owned(), "&".to_owned()));
        entity_definitions.push(("apos".to_owned(), "'".to_owned()));
        entity_definitions.push(("quot".to_owned(), "\"".to_owned()));
        Ok(
            Validator {
                schema,
                tokenizer,
                current_step: start,
                last_was_start_element: false,
                stack: ElementStack::new(),
                entity_definitions,
                text_buffer: String::new(),
            },
        )
    }

    /// Whether the document may end here: the current pattern is nullable.
    pub fn is_complete(&self) -> (r: bool)
        requires
            self.wf(),
        ensures
            r == self@.pool.is_nullable(self@.current),
    {
        self.schema.nullable(self.current_step)
    }

    /// The pattern that the rest of the document has to match.
    pub fn current(&self) -> (r: PatId)
        ensures
            r == self@.current,
    {
        self.current_step
    }

    /// The pool of the validator.
    pub fn schema(&self) -> (r: &Schema<'s>)
        ensures
            r@ == self@.pool,
    {
        &self.schema
    }

    /// Flush any buffered text content by applying text_deriv to the current pattern.
    /// Returns Err if the text is not allowed by the current pattern.
    fn flush_text_buffer(&mut self, evt: &XmlToken) -> (r: Result<(), ValidatorError>)
        requires
            old(self).wf(),
        ensures
            final(self).wf(),
            final(self).events() == old(self).events(),
            match r {
                Ok(()) => old(self)@.flushed(evt@) == Ok::<Machine, Verdict>(
                    final(self)@,
                ),
                Err(e) => old(self)@.flushed(evt@) == Err::<Machine, Verdict>(
                    e@,
                ),
            },
    {
        if self.text_buffer.as_str().is_empty() {
            return Ok(());
        }
        let mut memo: HashMap<u32, PatId> = HashMap::new();
        assert(memo@ =~= Map::empty());
        assert(binding_of(&self.stack) =~= self@.binding());
        let fuel = self.schema.len() + 1;
        let next_id = match self.schema.text_deriv_memo(
            &mut memo,
            self.current_step,
            self.text_buffer.as_str(),
            &self.stack,
            fuel,
        ) {
            Ok(id) => id,
            Err(e) => {
                return Err(ValidatorError::Limit(e));
            },
        };
        self.text_buffer = String::new();
        if self.schema.is_not_allowed(next_id) {
            Err(ValidatorError::NotAllowed(evt.copy()))
        } else {
            self.current_step = next_id;
            self.last_was_start_element = false;
            assert(self@.buffer =~= Seq::empty());
            Ok(())
        }
    }

    /// The pattern `pat` after the attribute `att`.
    fn take_attribute(&mut self, pat: PatId, att: &Attr) -> (r: Result<PatId, ValidatorError>)
        requires
            old(self).wf(),
            old(self)@.pool.has(pat),
        ensures
            final(self).wf(),
            final(self).events() == old(self).events(),
            final(self)@.pool.extends(old(self)@.pool),
            final(self)@ == (Machine { pool: final(self)@.pool, ..old(self)@ }),
            ({
                let d = old(self)@.pool.att_deriv(
                    Map::empty(),
                    pat,
                    att.event(),
                    binding_in(old(self)@.elements),
                    old(self)@.pool.nodes.len() + 1,
                );
                match r {
                    Ok(id) => d.result == Ok::<PatId, LimitError>(id) && d.pool == final(self)@.pool
                        && !(d.pool.node(id) is NotAllowed) && d.pool.has(id),
                    Err(e) => match d.result {
                        Err(limit) => e@ == Verdict::Limit(limit),
                        Ok(id) => d.pool.node(id) is NotAllowed && e@ == Verdict::NotAllowed(
                            TokenView::Attribute {
                                prefix: Part::nowhere(),
                                local: Part { text: att.name.local_name@, start: att.span.start },
                                value: Part { text: att.value@, start: att.span.start },
                                span: att.span,
                            },
                        ),
                    },
                }
            }),
    {
        let mut memo: HashMap<u32, PatId> = HashMap::new();
        assert(memo@ =~= Map::empty());
        assert(binding_of(&self.stack) =~= self@.binding());
        let fuel = self.schema.len() + 1;
        let next = match self.schema.att_deriv(&mut memo, pat, att, &self.stack, fuel) {
            Ok(id) => id,
            Err(e) => {
                return Err(ValidatorError::Limit(e));
            },
        };
        if self.schema.is_not_allowed(next) {
            return Err(refuse_attribute(att));
        }
        Ok(next)
    }

    /// The pattern `pat` after the attributes of the innermost element.
    fn take_attributes(&mut self, pat: PatId, attributes: &Vec<Attr>) -> (r: Result<
        PatId,
        ValidatorError,
    >)
        requires
            old(self).wf(),
            old(self)@.pool.has(pat),
            old(self)@.elements.len() > 0,
            attributes@.len() == old(self)@.elements.last().attributes.len(),
            forall|i: int|
                0 <= i < attributes@.len() ==> (#[trigger] attributes@[i]).event() == att_event(
                    old(self)@.elements,
                    old(self)@.elements.last().attributes[i],
                ) && attributes@[i].span == old(self)@.elements.last().attributes[i].span,
        ensures
            final(self).wf(),
            final(self).events() == old(self).events(),
            final(self)@.pool.extends(old(self)@.pool),
            final(self)@ == (Machine { pool: final(self)@.pool, ..old(self)@ }),
            match r {
                Ok(id) => attributes_taken(
                    old(self)@.elements,
                    old(self)@.pool,
                    pat,
                    old(self)@.elements.last().attributes,
                    0,
                ) == Ok::<(Pool, PatId), Verdict>((final(self)@.pool, id)) && final(self)@.pool.has(
                    id,
                ),
                Err(e) => attributes_taken(
                    old(self)@.elements,
                    old(self)@.pool,
                    pat,
                    old(self)@.elements.last().attributes,
                    0,
                ) == Err::<(Pool, PatId), Verdict>(e@),
            },
    {
        let ghost read = self@.elements.last().attributes;
        let ghost start = self@;
        let mut cur = pat;
        let mut i: usize = 0;
        while i < attributes.len()
            invariant
                i <= attributes.len(),
                self.wf(),
                self.events() == old(self).events(),
                self@.pool.has(cur),
                self@.pool.extends(start.pool),
                self@ == (Machine { pool: self@.pool, ..start }),
                start == old(self)@,
                read == start.elements.last().attributes,
                attributes@.len() == read.len(),
                forall|k: int|
                    0 <= k < attributes@.len() ==> (#[trigger] attributes@[k]).event() == att_event(
                        start.elements,
                        read[k],
                    ) && attributes@[k].span == read[k].span,
                attributes_taken(start.elements, start.pool, pat, read, 0) == attributes_taken(
                    start.elements,
                    self@.pool,
                    cur,
                    read,
                    i as int,
                ),
            decreases attributes.len() - i,
        {
            let ghost before = self@;
            assert(attributes@[i as int].event() == att_event(start.elements, read[i as int]));
            cur = self.take_attribute(cur, &attributes[i])?;
            i += 1;
        }
        Ok(cur)
    }
}

impl<'a, 's> Validator<'a, 's> {
    /// The pattern after the name of the innermost element.
    fn open_element(&mut self) -> (r: Result<PatId, ValidatorError>)
        requires
            old(self).wf(),
            old(self)@.elements.len() > 0,
        ensures
            final(self).wf(),
            final(self).events() == old(self).events(),
            final(self)@ == (Machine { pool: final(self)@.pool, ..old(self)@ }),
            final(self)@.pool.extends(old(self)@.pool),
            match r {
                Ok(id) => old(self)@.tag_opened() == Ok::<(Pool, PatId), Verdict>(
                    (final(self)@.pool, id),
                ) && final(self)@.pool.has(id),
                Err(e) => old(self)@.tag_opened() == Err::<(Pool, PatId), Verdict>(e@),
            },
    {
        let name = self.stack.current_element()?;
        let pat = self.schema.patt(self.current_step);
        assert(self@.pool.pat_ok(self@.pool.nodes[self@.current.0 as int]));
        let id = match self.schema.push(pat) {
            Ok(id) => id,
            Err(e) => {
                return Err(ValidatorError::Limit(e));
            },
        };
        let mut memo: HashMap<u32, PatId> = HashMap::new();
        assert(memo@ =~= Map::empty());
        let fuel = self.schema.len() + 1;
        let next_pat = match self.schema.open_deriv(&mut memo, id, &name, fuel) {
            Ok(id) => id,
            Err(e) => {
                return Err(ValidatorError::Limit(e));
            },
        };
        if self.schema.is_not_allowed(next_pat) {
            return Err(refuse_element(self.stack.current_local()));
        }
        Ok(next_pat)
    }

    /// The pattern after the start tag of the innermost element: the
    /// derivative with respect to its name, then to each of its attributes,
    /// then to the end of the tag.
    fn close_element_start(&mut self, evt: &XmlToken) -> (r: Result<PatId, ValidatorError>)
        requires
            old(self).wf(),
        ensures
            final(self).wf(),
            final(self).events() == old(self).events(),
            final(self)@ == (Machine { pool: final(self)@.pool, ..old(self)@ }),
            match r {
                Ok(id) => old(self)@.tag_taken(evt@) == Ok::<
                    (Pool, PatId),
                    Verdict,
                >((final(self)@.pool, id)) && final(self)@.pool.has(id),
                Err(e) => old(self)@.tag_taken(evt@) == Err::<
                    (Pool, PatId),
                    Verdict,
                >(e@),
            },
    {
        if self.stack.depth() == 0 {
            return Err(ValidatorError::NotAllowed(evt.copy()));
        }
        let next_pat = self.open_element()?;
        let attributes = self.stack.current_attributes()?;
        let next_pat = self.take_attributes(next_pat, &attributes)?;
        let fuel = self.schema.len() + 1;
        let next_pat = match self.schema.close_deriv(next_pat, fuel) {
            Ok(id) => id,
            Err(e) => {
                return Err(ValidatorError::Limit(e));
            },
        };
        if self.schema.is_not_allowed(next_pat) {
            return Err(ValidatorError::NotAllowed(evt.copy()));
        }
        Ok(next_pat)
    }

    /// Ends the innermost element, whose content is matched by `pat`.
    fn end_element(&mut self, pat: PatId, childless: bool, evt: &XmlToken) -> (r: Result<
        (),
        ValidatorError,
    >)
        requires
            old(self).wf(),
            old(self)@.pool.has(pat),
        ensures
            final(self).wf(),
            final(self).events() == old(self).events(),
            match r {
                Ok(()) => old(self)@.element_ended(
                    old(self)@.pool,
                    pat,
                    childless,
                    evt@,
                ) == Ok::<Machine, Verdict>(final(self)@),
                Err(e) => old(self)@.element_ended(
                    old(self)@.pool,
                    pat,
                    childless,
                    evt@,
                ) == Err::<Machine, Verdict>(e@),
            },
    {
        let next_id = if childless {
            // The last event was the opening of an element with no child elements
            // or child text nodes. The case where the list of children is empty is
            // treated as if there were a text node whose value were the empty
            // string.
            let mut memo: HashMap<u32, PatId> = HashMap::new();
            assert(memo@ =~= Map::empty());
            assert(binding_of(&self.stack) =~= self@.binding());
            proof {
                reveal_strlit("");
                assert(""@ =~= Seq::<char>::empty());
            }
            let fuel = self.schema.len() + 1;
            match self.schema.text_deriv_memo(&mut memo, pat, "", &self.stack, fuel) {
                Ok(id) => id,
                Err(e) => {
                    return Err(ValidatorError::Limit(e));
                },
            }
        } else {
            pat
        };
        let fuel = self.schema.len() + 1;
        let new = match self.schema.end_deriv(next_id, fuel) {
            Ok(id) => id,
            Err(e) => {
                return Err(ValidatorError::Limit(e));
            },
        };
        self.stack.pop();
        self.last_was_start_element = false;
        if self.schema.is_not_allowed(new) {
            Err(ValidatorError::NotAllowed(evt.copy()))
        } else {
            self.current_step = new;
            Ok(())
        }
    }

    /// Adds the text of `text`, with its references resolved, to the text
    /// that was read.
    fn take_text(&mut self, text: &StrSpan) -> (r: Result<(), ValidatorError>)
        requires
            old(self).wf(),
        ensures
            final(self).wf(),
            final(self).events() == old(self).events(),
            match r {
                Ok(()) => old(self)@.on(XmlToken::Text { text: *text }) == Ok::<Machine, Verdict>(
                    final(self)@,
                ),
                Err(e) => old(self)@.on(XmlToken::Text { text: *text }) == Err::<Machine, Verdict>(
                    e@,
                ),
            },
            r is Err ==> final(self)@ == old(self)@,
    {
        let fits = match text_width(text.as_str()) {
            Some(w) => w < usize::MAX && text.start() < usize::MAX - w,
            None => false,
        };
        if !fits {
            return Err(ValidatorError::Limit(LimitError::TooLong));
        }
        // Buffer text content (with entity resolution) for later flushing
        let parts = parse_entities(text.start(), text.as_str());
        let data = resolve_parts(&parts, &self.entity_definitions)?;
        self.text_buffer.append(data.as_str());
        self.last_was_start_element = false;
        Ok(())
    }

    /// Takes one event of the document. An event that is refused for what it
    /// is (an external entity, an attribute outside of an element, a text
    /// with a reference that cannot be resolved) leaves the state as it was.
    pub fn validate(&mut self, evt: XmlToken) -> (r: Result<(), ValidatorError>)
        requires
            old(self).wf(),
        ensures
            final(self).wf(),
            final(self).events() == old(self).events(),
            match r {
                Ok(()) => old(self)@.on(evt) == Ok::<Machine, Verdict>(final(self)@),
                Err(e) => old(self)@.on(evt) == Err::<Machine, Verdict>(e@),
            },
            r is Err && refused_outright(evt) ==> final(self)@ == old(self)@,
    {
        match &evt {
            XmlToken::EmptyDtd { .. }
            | XmlToken::Comment { .. }
            | XmlToken::ProcessingInstruction { .. }
            | XmlToken::Declaration { .. }
            | XmlToken::DtdStart { .. }
            | XmlToken::DtdEnd { .. } => {
                // does not change current_step state; does not flush text buffer
                // (PIs may appear within text content, e.g. "x<?pi?>y" should
                // be treated as the single text string "xy")
                Ok(())
            },
            XmlToken::ElementStart { prefix, local, span } => {
                // Flush any buffered text before processing a new element
                self.flush_text_buffer(&evt)?;
                self.stack.push(prefix.copy(), local.copy(), *span);
                assert(self@.elements =~= old(self)@.flushed(
                    evt@,
                )->Ok_0.elements.push(crate::stack::opened(*prefix, *local)));
                Ok(())
            },
            XmlToken::Attribute { prefix, local, value, span } => {
                if self.stack.depth() == 0 {
                    return Err(ValidatorError::NotAllowed(evt.copy()));
                }
                self.stack.add_attr(prefix.copy(), local.copy(), value.copy(), *span);
                Ok(())
            },
            XmlToken::ElementEnd { end, span: _ } => match end {
                ElementEnd::Open => {
                    let result = self.close_element_start(&evt)?;
                    self.last_was_start_element = true;
                    self.current_step = result;
                    Ok(())
                },
                ElementEnd::Close(_, _) => {
                    // Flush any buffered text before processing end tag
                    self.flush_text_buffer(&evt)?;
                    let childless = self.last_was_start_element;
                    let pat = self.current_step;
                    self.end_element(pat, childless, &evt)
                },
                ElementEnd::Empty => {
                    let next_id = self.close_element_start(&evt)?;
                    // Self-closing elements like <foo/> always have no children.
                    self.end_element(next_id, true, &evt)
                },
            },
            XmlToken::Cdata { text, span: _ } => {
                // Buffer CDATA text to be flushed with other text content
                self.text_buffer.append(text.as_str());
                self.last_was_start_element = false;
                Ok(())
            },
            XmlToken::Text { text } => self.take_text(text),
            XmlToken::EntityDeclaration { name, definition, span: _ } => {
                match definition {
                    EntityDefinition::EntityValue(val) => {
                        self.entity_definitions.push((name.text.clone(), val.text.clone()));
                        Ok(())
                    },
                    EntityDefinition::ExternalId => {
                        // no support for resolving external ids
                        Err(ValidatorError::NotAllowed(evt.copy()))
                    },
                }
            },
        }
    }

    /// Takes the next event from the tokenizer. `None` means that the
    /// document has ended; whether it may end there is told by
    /// `is_complete`. An error of the tokenizer is handed on and leaves the
    /// state as it was; any other event is taken as `validate` takes it.
    pub fn validate_next(&mut self) -> (r: Option<Result<(), ValidatorError>>)
        requires
            old(self).wf(),
        ensures
            final(self).wf(),
            final(self).events() == rest(old(self).events()),
            match head(old(self).events()) {
                None => r is None && final(self)@ == old(self)@,
                Some(Err(e)) => r == Some(Err::<(), ValidatorError>(e)) && e is Xml && final(self)@
                    == old(self)@,
                Some(Ok(evt)) => match r {
                    Some(Ok(())) => old(self)@.on(evt) == Ok::<Machine, Verdict>(final(self)@),
                    Some(Err(e)) => old(self)@.on(evt) == Err::<Machine, Verdict>(e@) && (
                    refused_outright(evt) ==> final(self)@ == old(self)@),
                    None => false,
                },
            },
    {
        match self.take_event() {
            Some(Ok(evt)) => Some(self.validate(evt)),
            Some(Err(err)) => Some(Err(err)),
            None => None,
        }
    }

    /// Takes the first event from the tokenizer.
    fn take_event(&mut self) -> (r: Option<Result<XmlToken, ValidatorError>>)
        ensures
            r == head(old(self).events()),
            r matches Some(Err(e)) ==> e is Xml,
            final(self).events() == rest(old(self).events()),
            final(self)@ == old(self)@,
    {
        let r = convert_event(&self.tokenizer);
        if r.is_some() {
            advance(&mut self.tokenizer);
        }
        r
    }
}

} // verus!
