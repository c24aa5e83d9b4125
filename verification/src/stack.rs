//! The elements that are open, with the namespaces that they declare and
//! the attributes of the start tag that is being read.

use vstd::prelude::*;
use crate::deriv_tag::{Attr, Event};
use crate::model::QualifiedName;
use crate::qname::Namespaces;
use crate::span::Span;
use crate::text::str_eq;
use crate::token::{Part, StrSpan, ValidatorError};

verus! {

/// The namespace that the prefix `xml` always stands for.
pub const XML_NS: &'static str = "http://www.w3.org/XML/1998/namespace";

/// A namespace declaration: the prefix (empty for the default namespace)
/// and the URI.
#[derive(Debug)]
pub struct Ns {
    pub prefix: StrSpan,
    pub namespace_uri: StrSpan,
}

/// An attribute as it was read, with its prefix not yet resolved.
#[derive(Debug)]
pub struct UnresolvedAttr {
    pub prefix: StrSpan,
    pub local: StrSpan,
    pub value: StrSpan,
    pub span: Span,
}

/// An open element.
#[derive(Debug)]
pub struct ElementState {
    pub prefix: StrSpan,
    pub local: StrSpan,
    pub namespaces: Vec<Ns>,
    pub attributes: Vec<UnresolvedAttr>,
}

/// The open elements, the innermost last.
#[derive(Debug)]
pub struct ElementStack {
    pub elements: Vec<ElementState>,
}

/// A namespace declaration over character sequences, with the offsets of
/// its pieces.
pub struct Binding {
    pub prefix: Seq<char>,
    pub prefix_start: usize,
    pub uri: Seq<char>,
    pub uri_start: usize,
}

/// An attribute as it was read, over character sequences, with the
/// offsets of its pieces.
pub struct Read {
    pub prefix: Seq<char>,
    pub prefix_start: usize,
    pub local: Seq<char>,
    pub local_start: usize,
    pub value: Seq<char>,
    pub value_start: usize,
    pub span: Span,
}

/// An open element over character sequences, with the offsets of its
/// prefix and its local name.
pub struct Frame {
    pub prefix: Seq<char>,
    pub prefix_start: usize,
    pub local: Seq<char>,
    pub local_start: usize,
    pub namespaces: Seq<Binding>,
    pub attributes: Seq<Read>,
}

impl View for Ns {
    type V = Binding;

    open spec fn view(&self) -> Binding {
        Binding {
            prefix: self.prefix.text@,
            prefix_start: self.prefix.start,
            uri: self.namespace_uri.text@,
            uri_start: self.namespace_uri.start,
        }
    }
}

impl View for UnresolvedAttr {
    type V = Read;

    open spec fn view(&self) -> Read {
        Read {
            prefix: self.prefix.text@,
            prefix_start: self.prefix.start,
            local: self.local.text@,
            local_start: self.local.start,
            value: self.value.text@,
            value_start: self.value.start,
            span: self.span,
        }
    }
}

impl View for ElementState {
    type V = Frame;

    open spec fn view(&self) -> Frame {
        Frame {
            prefix: self.prefix.text@,
            prefix_start: self.prefix.start,
            local: self.local.text@,
            local_start: self.local.start,
            namespaces: Seq::new(self.namespaces@.len(), |i: int| self.namespaces@[i]@),
            attributes: Seq::new(self.attributes@.len(), |i: int| self.attributes@[i]@),
        }
    }
}

impl View for ElementStack {
    type V = Seq<Frame>;

    open spec fn view(&self) -> Seq<Frame> {
        Seq::new(self.elements@.len(), |i: int| self.elements@[i]@)
    }
}

/// The URI of the first declaration of `prefix` among `namespaces`.
pub open spec fn declared(namespaces: Seq<Binding>, prefix: Seq<char>) -> Option<Seq<char>>
    decreases namespaces.len(),
{
    if namespaces.len() == 0 {
        None
    } else if namespaces[0].prefix == prefix {
        Some(namespaces[0].uri)
    } else {
        declared(namespaces.drop_first(), prefix)
    }
}

/// The URI that `prefix` is bound to: that of the innermost element that
/// declares it.
pub open spec fn bound(elements: Seq<Frame>, prefix: Seq<char>) -> Option<Seq<char>>
    decreases elements.len(),
{
    if elements.len() == 0 {
        None
    } else {
        match declared(elements.last().namespaces, prefix) {
            Some(uri) => Some(uri),
            None => bound(elements.drop_last(), prefix),
        }
    }
}

/// The namespace of a name with the prefix `prefix`: no prefix gives the
/// default namespace, and none if that is empty or not declared; `xml` is
/// always bound; any other prefix has to be declared.
pub open spec fn namespace_of(elements: Seq<Frame>, prefix: Seq<char>) -> Result<
    Option<Seq<char>>,
    (),
> {
    if prefix.len() == 0 {
        match bound(elements, prefix) {
            Some(uri) => if uri.len() > 0 {
                Ok(Some(uri))
            } else {
                Ok(None)
            },
            None => Ok(None),
        }
    } else if prefix == "xml"@ {
        Ok(Some(XML_NS@))
    } else {
        match bound(elements, prefix) {
            Some(uri) => Ok(Some(uri)),
            None => Err(()),
        }
    }
}

/// The namespace of an attribute with the prefix `prefix`: an attribute
/// without prefix is in no namespace.
pub open spec fn attribute_namespace(elements: Seq<Frame>, prefix: Seq<char>) -> Result<
    Option<Seq<char>>,
    (),
> {
    if prefix.len() == 0 {
        Ok(None)
    } else {
        namespace_of(elements, prefix)
    }
}

/// The attribute `read` as an event, with its namespace resolved.
pub open spec fn att_event(elements: Seq<Frame>, read: Read) -> Event {
    Event {
        ns: attribute_namespace(elements, read.prefix)->Ok_0,
        local: read.local,
        value: read.value,
    }
}

/// Every attribute of the innermost element has a prefix that is bound.
pub open spec fn attributes_bound(elements: Seq<Frame>) -> bool {
    forall|i: int|
        0 <= i < elements.last().attributes.len() ==> attribute_namespace(
            elements,
            (#[trigger] elements.last().attributes[i]).prefix,
        ) is Ok
}

/// The prefix of the first of the attributes `attrs[i..]` of the innermost
/// element whose prefix is not bound.
pub open spec fn first_unbound(elements: Seq<Frame>, i: int) -> Part
    decreases elements.last().attributes.len() - i,
{
    let attrs = elements.last().attributes;
    if i < 0 || i >= attrs.len() {
        Part::nowhere()
    } else if attribute_namespace(elements, attrs[i].prefix) is Err {
        Part { text: attrs[i].prefix, start: attrs[i].prefix_start }
    } else {
        first_unbound(elements, i + 1)
    }
}

/// An element that was just opened: it declares no namespace and has no
/// attribute yet.
pub open spec fn opened(prefix: StrSpan, local: StrSpan) -> Frame {
    Frame {
        prefix: prefix.text@,
        prefix_start: prefix.start,
        local: local.text@,
        local_start: local.start,
        namespaces: Seq::empty(),
        attributes: Seq::empty(),
    }
}

/// The element with one more attribute of its start tag: a namespace
/// declaration if the attribute is `xmlns` or has that prefix.
pub open spec fn with_attribute(top: Frame, read: Read) -> Frame {
    if read.prefix == "xmlns"@ {
        Frame {
            namespaces: top.namespaces.push(
                Binding {
                    prefix: read.local,
                    prefix_start: read.local_start,
                    uri: read.value,
                    uri_start: read.value_start,
                },
            ),
            ..top
        }
    } else if read.prefix.len() == 0 && read.local == "xmlns"@ {
        Frame {
            namespaces: top.namespaces.push(
                Binding {
                    prefix: read.prefix,
                    prefix_start: read.prefix_start,
                    uri: read.value,
                    uri_start: read.value_start,
                },
            ),
            ..top
        }
    } else {
        Frame { attributes: top.attributes.push(read), ..top }
    }
}

impl ElementState {
    pub fn lookup_namespace_uri(&self, prefix: &str) -> (r: Option<&StrSpan>)
        ensures
            match r {
                Some(uri) => declared(self@.namespaces, prefix@) == Some(uri.text@),
                None => declared(self@.namespaces, prefix@) is None,
            },
    {
        let mut i: usize = 0;
        assert(self@.namespaces.skip(0) == self@.namespaces);
        while i < self.namespaces.len()
            invariant
                i <= self.namespaces.len(),
                declared(self@.namespaces, prefix@) == declared(
                    self@.namespaces.skip(i as int),
                    prefix@,
                ),
            decreases self.namespaces.len() - i,
        {
            assert(self@.namespaces.skip(i as int)[0] == self.namespaces@[i as int]@);
            assert(self@.namespaces.skip(i as int).drop_first() == self@.namespaces.skip(i + 1));
            if str_eq(self.namespaces[i].prefix.as_str(), prefix) {
                return Some(&self.namespaces[i].namespace_uri);
            }
            i += 1;
        }
        None
    }
}

impl ElementStack {
    /// No element is open.
    pub fn new() -> (r: ElementStack)
        ensures
            r@.len() == 0,
    {
        ElementStack { elements: Vec::new() }
    }

    pub fn lookup_namespace_uri(&self, prefix: &str) -> (r: Option<&StrSpan>)
        ensures
            match r {
                Some(uri) => bound(self@, prefix@) == Some(uri.text@),
                None => bound(self@, prefix@) is None,
            },
    {
        let mut k: usize = self.elements.len();
        assert(self@.take(k as int) == self@);
        while k > 0
            invariant
                k <= self.elements.len(),
                bound(self@, prefix@) == bound(self@.take(k as int), prefix@),
            decreases k,
        {
            proof {
                let cur = self@.take(k as int);
                assert(cur.last() == self.elements@[k - 1]@);
                assert(cur.drop_last() == self@.take(k - 1));
            }
            if let Some(uri) = self.elements[k - 1].lookup_namespace_uri(prefix) {
                return Some(uri);
            }
            k -= 1;
        }
        None
    }

    pub fn try_lookup_namespace_uri(&self, prefix: &StrSpan) -> (r: Result<
        Option<String>,
        ValidatorError,
    >)
        ensures
            match r {
                Ok(Some(uri)) => namespace_of(self@, prefix.text@) == Ok::<Option<Seq<char>>, ()>(
                    Some(uri@),
                ),
                Ok(None) => namespace_of(self@, prefix.text@) == Ok::<Option<Seq<char>>, ()>(None),
                Err(e) => namespace_of(self@, prefix.text@) is Err && (e
                    matches ValidatorError::UndefinedNamespacePrefix { prefix: p } && p.text@
                    == prefix.text@ && p.start == prefix.start),
            },
    {
        if prefix.as_str().is_empty() {
            // Look up the default namespace (xmlns="...")
            // An empty-string default namespace means "no namespace"
            match self.lookup_namespace_uri(prefix.as_str()) {
                Some(ns) => if !ns.as_str().is_empty() {
                    Ok(Some(ns.text.clone()))
                } else {
                    Ok(None)
                },
                None => Ok(None),
            }
        } else if str_eq(prefix.as_str(), "xml") {
            // The xml: prefix is always predefined per XML Namespaces spec
            Ok(Some(XML_NS.to_owned()))
        } else {
            match self.lookup_namespace_uri(prefix.as_str()) {
                Some(ns) => Ok(Some(ns.text.clone())),
                None => Err(ValidatorError::UndefinedNamespacePrefix { prefix: prefix.copy() }),
            }
        }
    }

    /// Opens an element.
    pub fn push(&mut self, prefix: StrSpan, local: StrSpan, _span: Span)
        ensures
            final(self)@ == old(self)@.push(opened(prefix, local)),
    {
        self.elements.push(
            ElementState { prefix, local, namespaces: Vec::new(), attributes: Vec::new() },
        );
        assert(self@ =~= old(self)@.push(opened(prefix, local))) by {
            assert(self.elements@.last()@.namespaces =~= Seq::empty());
            assert(self.elements@.last()@.attributes =~= Seq::empty());
        }
    }

    /// Closes the innermost element, if one is open.
    pub fn pop(&mut self)
        ensures
            final(self)@ == (if old(self)@.len() > 0 {
                old(self)@.drop_last()
            } else {
                old(self)@
            }),
    {
        let _ = self.elements.pop();
        assert(self@ =~= (if old(self)@.len() > 0 {
            old(self)@.drop_last()
        } else {
            old(self)@
        }));
    }

    /// The number of open elements.
    pub fn depth(&self) -> (r: usize)
        ensures
            r == self@.len(),
    {
        self.elements.len()
    }

    /// The local name of the innermost element.
    pub fn current_local(&self) -> (r: &StrSpan)
        requires
            self@.len() > 0,
        ensures
            r.text@ == self@.last().local,
            r.start == self@.last().local_start,
    {
        &self.elements[self.elements.len() - 1].local
    }

    /// Notes an attribute of the innermost element: a namespace declaration
    /// if it is `xmlns` or has that prefix, else an attribute.
    pub fn add_attr(&mut self, prefix: StrSpan, local: StrSpan, value: StrSpan, span: Span)
        requires
            old(self)@.len() > 0,
        ensures
            final(self)@ == old(self)@.drop_last().push(
                with_attribute(
                    old(self)@.last(),
                    Read {
                        prefix: prefix.text@,
                        prefix_start: prefix.start,
                        local: local.text@,
                        local_start: local.start,
                        value: value.text@,
                        value_start: value.start,
                        span,
                    },
                ),
            ),
    {
        let ghost read = Read {
            prefix: prefix.text@,
            prefix_start: prefix.start,
            local: local.text@,
            local_start: local.start,
            value: value.text@,
            value_start: value.start,
            span,
        };
        let mut top = match self.elements.pop() {
            Some(top) => top,
            None => ElementState {
                prefix: StrSpan::from(""),
                local: StrSpan::from(""),
                namespaces: Vec::new(),
                attributes: Vec::new(),
            },
        };
        let ghost before = top@;
        proof {
            reveal_strlit("");
        }
        if str_eq(prefix.as_str(), "xmlns") {
            top.namespaces.push(Ns { prefix: local, namespace_uri: value });
        } else if prefix.as_str().is_empty() && str_eq(local.as_str(), "xmlns") {
            top.namespaces.push(Ns { prefix, namespace_uri: value });
        } else {
            top.attributes.push(UnresolvedAttr { prefix, local, value, span });
        }
        proof {
            assert(top@.namespaces =~= with_attribute(before, read).namespaces);
            assert(top@.attributes =~= with_attribute(before, read).attributes);
        }
        self.elements.push(top);
        assert(self@ =~= old(self)@.drop_last().push(with_attribute(old(self)@.last(), read)));
    }

    /// The name of the innermost element with its namespace.
    pub fn current_element(&self) -> (r: Result<QualifiedName, ValidatorError>)
        requires
            self@.len() > 0,
        ensures
            match r {
                Ok(name) => namespace_of(self@, self@.last().prefix) == Ok::<Option<Seq<char>>, ()>(
                    name.ns(),
                ) && name.local_name@ == self@.last().local,
                Err(e) => namespace_of(self@, self@.last().prefix) is Err && (e
                    matches ValidatorError::UndefinedNamespacePrefix { prefix: p } && p@ == (Part {
                    text: self@.last().prefix,
                    start: self@.last().prefix_start,
                })),
            },
    {
        let curr = &self.elements[self.elements.len() - 1];
        let namespace_uri = self.try_lookup_namespace_uri(&curr.prefix)?;
        Ok(QualifiedName { namespace_uri, local_name: curr.local.text.clone() })
    }

    /// The attributes of the innermost element with their namespaces, in
    /// the order in which they were read.
    pub fn current_attributes(&self) -> (r: Result<Vec<Attr>, ValidatorError>)
        requires
            self@.len() > 0,
        ensures
            match r {
                Ok(attrs) => {
                    let read = self@.last().attributes;
                    &&& attributes_bound(self@)
                    &&& attrs@.len() == read.len()
                    &&& forall|i: int|
                        0 <= i < read.len() ==> (#[trigger] attrs@[i]).event() == att_event(
                            self@,
                            read[i],
                        ) && attrs@[i].span == read[i].span
                },
                Err(e) => !attributes_bound(self@) && (e
                    matches ValidatorError::UndefinedNamespacePrefix { prefix: p } && p@
                    == first_unbound(self@, 0)),
            },
    {
        let curr = &self.elements[self.elements.len() - 1];
        let ghost read = self@.last().attributes;
        let mut out: Vec<Attr> = Vec::new();
        let mut i: usize = 0;
        while i < curr.attributes.len()
            invariant
                i <= curr.attributes.len(),
                self@.len() > 0,
                *curr == self.elements@.last(),
                read == self@.last().attributes,
                read.len() == curr.attributes@.len(),
                out@.len() == i,
                forall|k: int|
                    0 <= k < i ==> attribute_namespace(self@, (#[trigger] read[k]).prefix) is Ok,
                first_unbound(self@, 0) == first_unbound(self@, i as int),
                forall|k: int|
                    0 <= k < i ==> (#[trigger] out@[k]).event() == att_event(self@, read[k])
                        && out@[k].span == read[k].span,
            decreases curr.attributes.len() - i,
        {
            let unresolved = &curr.attributes[i];
            assert(read[i as int] == unresolved@);
            proof {
                reveal_strlit("");
            }
            let namespace_uri = if unresolved.prefix.as_str().is_empty() {
                None
            } else {
                match self.try_lookup_namespace_uri(&unresolved.prefix) {
                    Ok(uri) => uri,
                    Err(e) => {
                        return Err(e);
                    },
                }
            };
            out.push(
                Attr {
                    name: QualifiedName { namespace_uri, local_name: unresolved.local.text.clone() },
                    value: unresolved.value.text.clone(),
                    span: unresolved.span,
                },
            );
            i += 1;
        }
        Ok(out)
    }
}

impl Namespaces for ElementStack {
    open spec fn binding(&self, prefix: Seq<char>) -> Option<Seq<char>> {
        bound(self@, prefix)
    }

    fn resolve(&self, prefix: &str) -> (r: Option<String>) {
        match self.lookup_namespace_uri(prefix) {
            Some(s) => Some(s.text.clone()),
            None => None,
        }
    }
}

} // verus!
