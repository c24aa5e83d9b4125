//! What a pattern holds, as far as the restrictions on schemas ask: text,
//! the names of attributes and elements, and the type of content.

use vstd::prelude::*;
use std::collections::HashSet;
use crate::model::{Grammar, Pattern};
use crate::nameclass::{
    all_collected, collect_name_class_entries, entries, Collected, CollectedNameClass,
};

verus! {

/// Whether a pattern matches nothing, so that it would be removed when the
/// schema is simplified: `notAllowed`, a group or an interleave with such a
/// member, a choice of such members only, and what repeats, lists or (as an
/// attribute) holds such a pattern.
pub open spec fn dead(p: Pattern) -> bool
    decreases p,
{
    match p {
        Pattern::NotAllowed => true,
        Pattern::Group(v) => exists|i: int| 0 <= i < v@.len() && dead(#[trigger] v@[i]),
        Pattern::Interleave(v) => exists|i: int| 0 <= i < v@.len() && dead(#[trigger] v@[i]),
        Pattern::OneOrMore(p) => dead(*p),
        Pattern::List(p) => dead(*p),
        Pattern::Choice(v) => forall|i: int| 0 <= i < v@.len() ==> dead(#[trigger] v@[i]),
        Pattern::Attribute(_, content) => dead(*content),
        _ => false,
    }
}

/// The number of members that are not `empty`.
pub open spec fn non_empty_count(members: Seq<Pattern>) -> nat
    decreases members.len(),
{
    if members.len() == 0 {
        0
    } else {
        non_empty_count(members.drop_last()) + if members.last() is Empty {
            0nat
        } else {
            1nat
        }
    }
}

/// Whether a pattern holds `text` outside of elements. References are
/// followed `fuel` definitions deep.
pub open spec fn has_text_in(g: Grammar, p: Pattern, fuel: nat) -> bool
    decreases fuel, p,
{
    !dead(p) && match p {
        Pattern::Text => true,
        Pattern::Mixed(_) => true,
        Pattern::Group(v) => exists|i: int|
            0 <= i < v@.len() && has_text_in(g, #[trigger] v@[i], fuel),
        Pattern::Interleave(v) => exists|i: int|
            0 <= i < v@.len() && has_text_in(g, #[trigger] v@[i], fuel),
        Pattern::Choice(v) => exists|i: int|
            0 <= i < v@.len() && has_text_in(g, #[trigger] v@[i], fuel),
        Pattern::OneOrMore(p) => has_text_in(g, *p, fuel),
        Pattern::ZeroOrMore(p) => has_text_in(g, *p, fuel),
        Pattern::Optional(p) => has_text_in(g, *p, fuel),
        Pattern::Ref(_, _, key) => match g.rule(key) {
            Some(body) => fuel > 0 && has_text_in(g, body, (fuel - 1) as nat),
            None => false,
        },
        _ => false,
    }
}

/// The name classes of the attributes of a pattern, outside of elements.
pub open spec fn attribute_names(g: Grammar, p: Pattern, fuel: nat) -> Seq<Collected>
    decreases fuel, p, 0nat,
{
    if dead(p) {
        Seq::empty()
    } else {
        match p {
            Pattern::Attribute(nc, _) => entries(nc@),
            Pattern::Group(v) => attributes_among(g, v@, 0, fuel),
            Pattern::Interleave(v) => attributes_among(g, v@, 0, fuel),
            Pattern::Choice(v) => attributes_among(g, v@, 0, fuel),
            Pattern::OneOrMore(p) => attribute_names(g, *p, fuel),
            Pattern::ZeroOrMore(p) => attribute_names(g, *p, fuel),
            Pattern::Optional(p) => attribute_names(g, *p, fuel),
            Pattern::Mixed(p) => attribute_names(g, *p, fuel),
            Pattern::Ref(_, _, key) => match g.rule(key) {
                Some(body) => if fuel > 0 {
                    attribute_names(g, body, (fuel - 1) as nat)
                } else {
                    Seq::empty()
                },
                None => Seq::empty(),
            },
            _ => Seq::empty(),
        }
    }
}

/// The name classes of the attributes of `items[i..]`.
pub open spec fn attributes_among(g: Grammar, items: Seq<Pattern>, i: int, fuel: nat) -> Seq<
    Collected,
>
    decreases fuel, items, items.len() - i,
{
    if i < 0 || i >= items.len() {
        Seq::empty()
    } else {
        attribute_names(g, items[i], fuel) + attributes_among(g, items, i + 1, fuel)
    }
}

/// The name classes of the elements of a pattern, not looking into them.
/// A group or an interleave with a `notAllowed` member has none.
pub open spec fn element_names(g: Grammar, p: Pattern, fuel: nat) -> Seq<Collected>
    decreases fuel, p, 0nat,
{
    match p {
        Pattern::Element(nc, _) => entries(nc@),
        Pattern::Group(v) => if holds_not_allowed(v@) {
            Seq::empty()
        } else {
            elements_among(g, v@, 0, fuel)
        },
        Pattern::Interleave(v) => if holds_not_allowed(v@) {
            Seq::empty()
        } else {
            elements_among(g, v@, 0, fuel)
        },
        Pattern::Choice(v) => elements_among(g, v@, 0, fuel),
        Pattern::OneOrMore(p) => element_names(g, *p, fuel),
        Pattern::ZeroOrMore(p) => element_names(g, *p, fuel),
        Pattern::Optional(p) => element_names(g, *p, fuel),
        Pattern::Mixed(p) => element_names(g, *p, fuel),
        Pattern::Ref(_, _, key) => match g.rule(key) {
            Some(body) => if fuel > 0 {
                element_names(g, body, (fuel - 1) as nat)
            } else {
                Seq::empty()
            },
            None => Seq::empty(),
        },
        _ => Seq::empty(),
    }
}

/// A member is `notAllowed` itself.
pub open spec fn holds_not_allowed(items: Seq<Pattern>) -> bool {
    exists|i: int| 0 <= i < items.len() && (#[trigger] items[i]) is NotAllowed
}

/// The name classes of the elements of `items[i..]`.
pub open spec fn elements_among(g: Grammar, items: Seq<Pattern>, i: int, fuel: nat) -> Seq<
    Collected,
>
    decreases fuel, items, items.len() - i,
{
    if i < 0 || i >= items.len() {
        Seq::empty()
    } else {
        element_names(g, items[i], fuel) + elements_among(g, items, i + 1, fuel)
    }
}

/// The kinds of content.
#[derive(Debug, Clone, Copy, PartialEq, Eq, Structural)]
pub enum ContentType {
    Empty,
    Complex,
    Simple,
}

/// The later of two kinds of content in the order empty, complex, simple.
pub open spec fn later(a: ContentType, b: ContentType) -> ContentType {
    match (a, b) {
        (ContentType::Simple, _) => ContentType::Simple,
        (_, ContentType::Simple) => ContentType::Simple,
        (ContentType::Complex, _) => ContentType::Complex,
        (_, ContentType::Complex) => ContentType::Complex,
        _ => ContentType::Empty,
    }
}

/// The kind of content of a pattern, and the definitions that were looked
/// into: data, values and lists are simple, elements and text complex, the
/// rest empty; of several patterns the latest kind counts. A definition
/// that was looked into before counts as complex.
pub open spec fn content_kind(g: Grammar, p: Pattern, seen: Set<usize>, fuel: nat) -> (
    ContentType,
    Set<usize>,
)
    decreases fuel, p, 0nat,
{
    if dead(p) {
        (ContentType::Empty, seen)
    } else {
        match p {
            Pattern::Empty | Pattern::NotAllowed => (ContentType::Empty, seen),
            Pattern::Element(_, _) => (ContentType::Complex, seen),
            Pattern::Text => (ContentType::Complex, seen),
            Pattern::Ref(_, _, key) => if seen.contains(key) {
                (ContentType::Complex, seen)
            } else {
                match g.rule(key) {
                    Some(body) => if fuel > 0 {
                        content_kind(g, body, seen.insert(key), (fuel - 1) as nat)
                    } else {
                        (ContentType::Complex, seen.insert(key))
                    },
                    None => (ContentType::Empty, seen.insert(key)),
                }
            },
            Pattern::DatatypeValue { .. } | Pattern::DatatypeName { .. } | Pattern::List(_) => (
                ContentType::Simple,
                seen,
            ),
            Pattern::Attribute(_, _) => (ContentType::Empty, seen),
            Pattern::Group(v) => kind_among(g, v@, 0, seen, fuel),
            Pattern::Interleave(v) => kind_among(g, v@, 0, seen, fuel),
            Pattern::Choice(v) => kind_among(g, v@, 0, seen, fuel),
            Pattern::OneOrMore(p) => content_kind(g, *p, seen, fuel),
            Pattern::ZeroOrMore(p) => content_kind(g, *p, seen, fuel),
            Pattern::Optional(p) => content_kind(g, *p, seen, fuel),
            Pattern::Mixed(_) => (ContentType::Complex, seen),
        }
    }
}

/// The latest kind of content among `items[i..]`.
pub open spec fn kind_among(g: Grammar, items: Seq<Pattern>, i: int, seen: Set<usize>, fuel: nat) -> (
    ContentType,
    Set<usize>,
)
    decreases fuel, items, items.len() - i,
{
    if i < 0 || i >= items.len() {
        (ContentType::Empty, seen)
    } else {
        let first = content_kind(g, items[i], seen, fuel);
        let rest = kind_among(g, items, i + 1, first.1, fuel);
        (later(first.0, rest.0), rest.1)
    }
}

/// Whether two kinds of content can stand in one group: empty with
/// anything, complex with complex.
pub open spec fn can_group(ct1: ContentType, ct2: ContentType) -> bool {
    ct1 is Empty || ct2 is Empty || (ct1 is Complex && ct2 is Complex)
}

/// Returns true if a pattern simplifies to notAllowed under the
/// simplification rules of RELAX NG (section 4).
/// A dead pattern should not trigger restriction violations because it would
/// be eliminated during full simplification.
pub fn is_dead(pattern: &Pattern) -> (r: bool)
    ensures
        r == dead(*pattern),
    decreases pattern,
{
    match pattern {
        Pattern::NotAllowed => true,
        Pattern::Group(members) => {
            assert(decreases_to!(*pattern => pattern->Group_0));
            any_dead(members)
        },
        Pattern::Interleave(members) => {
            assert(decreases_to!(*pattern => pattern->Interleave_0));
            any_dead(members)
        },
        Pattern::OneOrMore(p) => is_dead(p),
        Pattern::List(p) => is_dead(p),
        Pattern::ZeroOrMore(_) => false,
        Pattern::Choice(alts) => {
            // choice is dead only if ALL alternatives are dead
            assert(decreases_to!(*pattern => pattern->Choice_0));
            all_dead(alts)
        },
        Pattern::Optional(_) => false,
        // An attribute whose content is dead can never be satisfied
        Pattern::Attribute(_, content) => is_dead(content),
        // Element(nc, notAllowed) does NOT simplify to notAllowed per the spec.
        Pattern::Element(_, _) => false,
        _ => false,
    }
}

/// Whether every member is dead.
fn all_dead(members: &Vec<Pattern>) -> (r: bool)
    ensures
        r == forall|i: int| 0 <= i < members@.len() ==> dead(#[trigger] members@[i]),
    decreases members,
{
    let mut i: usize = 0;
    while i < members.len()
        invariant
            i <= members.len(),
            forall|k: int| 0 <= k < i ==> dead(#[trigger] members@[k]),
        decreases members.len() - i,
    {
        assert(decreases_to!(*members => members[i as int]));
        if !is_dead(&members[i]) {
            return false;
        }
        i += 1;
    }
    true
}

/// Whether one of the members is dead.
fn any_dead(members: &Vec<Pattern>) -> (r: bool)
    ensures
        r == exists|i: int| 0 <= i < members@.len() && dead(#[trigger] members@[i]),
    decreases members,
{
    let mut i: usize = 0;
    while i < members.len()
        invariant
            i <= members.len(),
            forall|k: int| 0 <= k < i ==> !dead(#[trigger] members@[k]),
        decreases members.len() - i,
    {
        assert(decreases_to!(*members => members[i as int]));
        if is_dead(&members[i]) {
            return true;
        }
        i += 1;
    }
    false
}

/// Returns the count of "real" members in a group/interleave after removing
/// empty members (since group(X, empty) simplifies to X in RELAX NG section 4).
pub fn count_non_empty_members(members: &Vec<Pattern>) -> (r: usize)
    ensures
        r == non_empty_count(members@),
{
    let mut count: usize = 0;
    let mut i: usize = 0;
    assert(members@.take(0) =~= Seq::empty());
    while i < members.len()
        invariant
            i <= members.len(),
            count <= i,
            count == non_empty_count(members@.take(i as int)),
        decreases members.len() - i,
    {
        proof {
            assert(members@.take(i + 1).drop_last() =~= members@.take(i as int));
            assert(members@.take(i + 1).last() == members@[i as int]);
        }
        if !matches!(members[i], Pattern::Empty) {
            count += 1;
        }
        i += 1;
    }
    assert(members@.take(members@.len() as int) =~= members@);
    count
}

/// Check if a pattern is effectively empty (matches only the empty string
/// or nothing at all).
pub fn content_is_empty(pattern: &Pattern) -> (r: bool)
    ensures
        r == (*pattern is Empty || *pattern is NotAllowed),
{
    match pattern {
        Pattern::Empty | Pattern::NotAllowed => true,
        _ => false,
    }
}

pub fn groupable(ct1: ContentType, ct2: ContentType) -> (r: bool)
    ensures
        r == can_group(ct1, ct2),
{
    matches!(
        (ct1, ct2),
        (ContentType::Empty, _) | (_, ContentType::Empty) | (
            ContentType::Complex,
            ContentType::Complex,
        )
    )
}

fn later_of(a: ContentType, b: ContentType) -> (r: ContentType)
    ensures
        r == later(a, b),
{
    match (a, b) {
        (ContentType::Simple, _) => ContentType::Simple,
        (_, ContentType::Simple) => ContentType::Simple,
        (ContentType::Complex, _) => ContentType::Complex,
        (_, ContentType::Complex) => ContentType::Complex,
        _ => ContentType::Empty,
    }
}

/// Whether one of the members holds text.
fn any_text(g: &Grammar, members: &Vec<Pattern>, fuel: usize) -> (r: bool)
    ensures
        r == exists|i: int| 0 <= i < members@.len() && has_text_in(*g, #[trigger] members@[i], fuel as nat),
    decreases fuel, members,
{
    let mut i: usize = 0;
    while i < members.len()
        invariant
            i <= members.len(),
            forall|k: int| 0 <= k < i ==> !has_text_in(*g, #[trigger] members@[k], fuel as nat),
        decreases members.len() - i,
    {
        assert(decreases_to!(*members => members[i as int]));
        if has_text(g, &members[i], fuel) {
            return true;
        }
        i += 1;
    }
    false
}

/// Check if a pattern contains `text` (directly or transitively, but not
/// inside element content).
pub fn has_text(g: &Grammar, pattern: &Pattern, fuel: usize) -> (r: bool)
    ensures
        r == has_text_in(*g, *pattern, fuel as nat),
    decreases fuel, pattern,
{
    if is_dead(pattern) {
        return false;
    }
    match pattern {
        Pattern::Text => true,
        Pattern::Mixed(_) => true,  // mixed = interleave(text, ...)
        Pattern::Group(members) => {
            assert(decreases_to!(*pattern => pattern->Group_0));
            any_text(g, members, fuel)
        },
        Pattern::Interleave(members) => {
            assert(decreases_to!(*pattern => pattern->Interleave_0));
            any_text(g, members, fuel)
        },
        Pattern::Choice(members) => {
            assert(decreases_to!(*pattern => pattern->Choice_0));
            any_text(g, members, fuel)
        },
        Pattern::OneOrMore(p) => has_text(g, p, fuel),
        Pattern::ZeroOrMore(p) => has_text(g, p, fuel),
        Pattern::Optional(p) => has_text(g, p, fuel),
        Pattern::Ref(_, _, key) => {
            match g.lookup(*key) {
                Some(body) => fuel > 0 && has_text(g, body, fuel - 1),
                None => false,
            }
        },
        // Element creates a boundary -- text inside element doesn't count
        Pattern::Element(_, _) => false,
        _ => false,
    }
}

/// The name classes of the attributes of the members.
fn collect_attributes_among(
    g: &Grammar,
    members: &Vec<Pattern>,
    out: &mut Vec<CollectedNameClass>,
    fuel: usize,
)
    ensures
        all_collected(final(out)@) == all_collected(old(out)@) + attributes_among(
            *g,
            members@,
            0,
            fuel as nat,
        ),
    decreases fuel, members,
{
    let mut i: usize = 0;
    while i < members.len()
        invariant
            i <= members.len(),
            all_collected(old(out)@) + attributes_among(*g, members@, 0, fuel as nat)
                == all_collected(out@) + attributes_among(*g, members@, i as int, fuel as nat),
        decreases members.len() - i,
    {
        let ghost before = all_collected(out@);
        assert(decreases_to!(*members => members[i as int]));
        collect_attribute_name_classes(g, &members[i], out, fuel);
        assert(before + (attribute_names(*g, members@[i as int], fuel as nat) + attributes_among(
            *g,
            members@,
            i + 1,
            fuel as nat,
        )) =~= all_collected(out@) + attributes_among(*g, members@, i + 1, fuel as nat));
        i += 1;
    }
    assert(all_collected(out@) + Seq::<Collected>::empty() =~= all_collected(out@));
}

/// Collect attribute name classes from a pattern tree (non-recursive into
/// element/attribute content -- only top-level attributes).
pub fn collect_attribute_name_classes(
    g: &Grammar,
    pattern: &Pattern,
    out: &mut Vec<CollectedNameClass>,
    fuel: usize,
)
    ensures
        all_collected(final(out)@) == all_collected(old(out)@) + attribute_names(
            *g,
            *pattern,
            fuel as nat,
        ),
    decreases fuel, pattern,
{
    assert(all_collected(out@) + Seq::<Collected>::empty() =~= all_collected(out@));
    if is_dead(pattern) {
        return ;
    }
    match pattern {
        Pattern::Attribute(nc, _) => {
            collect_name_class_entries(nc, out);
        },
        Pattern::Group(members) => {
            assert(decreases_to!(*pattern => pattern->Group_0));
            collect_attributes_among(g, members, out, fuel);
        },
        Pattern::Interleave(members) => {
            assert(decreases_to!(*pattern => pattern->Interleave_0));
            collect_attributes_among(g, members, out, fuel);
        },
        Pattern::Choice(members) => {
            assert(decreases_to!(*pattern => pattern->Choice_0));
            collect_attributes_among(g, members, out, fuel);
        },
        Pattern::OneOrMore(p) => collect_attribute_name_classes(g, p, out, fuel),
        Pattern::ZeroOrMore(p) => collect_attribute_name_classes(g, p, out, fuel),
        Pattern::Optional(p) => collect_attribute_name_classes(g, p, out, fuel),
        Pattern::Mixed(p) => collect_attribute_name_classes(g, p, out, fuel),
        Pattern::Ref(_, _, key) => {
            if let Some(body) = g.lookup(*key) {
                if fuel > 0 {
                    collect_attribute_name_classes(g, body, out, fuel - 1);
                }
            }
        },
        // Element creates a boundary -- don't look inside
        Pattern::Element(_, _) => {},
        // Leaf patterns have no attributes
        _ => {},
    }
}

/// Whether one of the members is `notAllowed` itself.
fn any_not_allowed(members: &Vec<Pattern>) -> (r: bool)
    ensures
        r == holds_not_allowed(members@),
{
    let mut i: usize = 0;
    while i < members.len()
        invariant
            i <= members.len(),
            forall|k: int| 0 <= k < i ==> !((#[trigger] members@[k]) is NotAllowed),
        decreases members.len() - i,
    {
        if matches!(members[i], Pattern::NotAllowed) {
            return true;
        }
        i += 1;
    }
    false
}

/// The name classes of the elements of the members.
fn collect_elements_among(
    g: &Grammar,
    members: &Vec<Pattern>,
    out: &mut Vec<CollectedNameClass>,
    fuel: usize,
)
    ensures
        all_collected(final(out)@) == all_collected(old(out)@) + elements_among(
            *g,
            members@,
            0,
            fuel as nat,
        ),
    decreases fuel, members,
{
    let mut i: usize = 0;
    while i < members.len()
        invariant
            i <= members.len(),
            all_collected(old(out)@) + elements_among(*g, members@, 0, fuel as nat)
                == all_collected(out@) + elements_among(*g, members@, i as int, fuel as nat),
        decreases members.len() - i,
    {
        let ghost before = all_collected(out@);
        assert(decreases_to!(*members => members[i as int]));
        collect_element_name_classes(g, &members[i], out, fuel);
        assert(before + (element_names(*g, members@[i as int], fuel as nat) + elements_among(
            *g,
            members@,
            i + 1,
            fuel as nat,
        )) =~= all_collected(out@) + elements_among(*g, members@, i + 1, fuel as nat));
        i += 1;
    }
    assert(all_collected(out@) + Seq::<Collected>::empty() =~= all_collected(out@));
}

/// Collect element name classes from a pattern tree (within a single
/// interleave branch -- recurse through group/interleave/choice but
/// don't enter element content).
pub fn collect_element_name_classes(
    g: &Grammar,
    pattern: &Pattern,
    out: &mut Vec<CollectedNameClass>,
    fuel: usize,
)
    ensures
        all_collected(final(out)@) == all_collected(old(out)@) + element_names(
            *g,
            *pattern,
            fuel as nat,
        ),
    decreases fuel, pattern,
{
    assert(all_collected(out@) + Seq::<Collected>::empty() =~= all_collected(out@));
    match pattern {
        Pattern::Element(nc, _) => {
            // Always collect element name classes, even if content is notAllowed.
            collect_name_class_entries(nc, out);
        },
        Pattern::NotAllowed => {},
        Pattern::Group(members) => {
            // group/interleave containing NotAllowed simplifies to NotAllowed
            if any_not_allowed(members) {
                return ;
            }
            assert(decreases_to!(*pattern => pattern->Group_0));
            collect_elements_among(g, members, out, fuel);
        },
        Pattern::Interleave(members) => {
            if any_not_allowed(members) {
                return ;
            }
            assert(decreases_to!(*pattern => pattern->Interleave_0));
            collect_elements_among(g, members, out, fuel);
        },
        Pattern::Choice(members) => {
            assert(decreases_to!(*pattern => pattern->Choice_0));
            collect_elements_among(g, members, out, fuel);
        },
        Pattern::OneOrMore(p) => collect_element_name_classes(g, p, out, fuel),
        Pattern::ZeroOrMore(p) => collect_element_name_classes(g, p, out, fuel),
        Pattern::Optional(p) => collect_element_name_classes(g, p, out, fuel),
        Pattern::Mixed(p) => collect_element_name_classes(g, p, out, fuel),
        Pattern::Ref(_, _, key) => {
            if let Some(body) = g.lookup(*key) {
                if fuel > 0 {
                    collect_element_name_classes(g, body, out, fuel - 1);
                }
            }
        },
        _ => {},
    }
}

/// The latest kind of content among the members.
fn content_type_among(g: &Grammar, members: &Vec<Pattern>, seen: &mut HashSet<usize>, fuel: usize) -> (r:
    ContentType)
    ensures
        (r, final(seen)@) == kind_among(*g, members@, 0, old(seen)@, fuel as nat),
    decreases fuel, members,
{
    let mut acc = ContentType::Empty;
    let mut i: usize = 0;
    while i < members.len()
        invariant
            i <= members.len(),
            kind_among(*g, members@, 0, old(seen)@, fuel as nat) == (
                later(acc, kind_among(*g, members@, i as int, seen@, fuel as nat).0),
                kind_among(*g, members@, i as int, seen@, fuel as nat).1,
            ),
        decreases members.len() - i,
    {
        assert(decreases_to!(*members => members[i as int]));
        let t = content_type_impl(g, &members[i], seen, fuel);
        acc = later_of(acc, t);
        i += 1;
    }
    acc
}

/// Compute the content type of a pattern (for the checks of RELAX NG section 7.2).
/// Refs are followed to their resolved content type (with cycle detection).
pub fn content_type(g: &Grammar, pattern: &Pattern, fuel: usize) -> (r: ContentType)
    ensures
        r == content_kind(*g, *pattern, Set::empty(), fuel as nat).0,
{
    let mut seen: HashSet<usize> = HashSet::new();
    content_type_impl(g, pattern, &mut seen, fuel)
}

pub fn content_type_impl(g: &Grammar, pattern: &Pattern, seen: &mut HashSet<usize>, fuel: usize) -> (r:
    ContentType)
    ensures
        (r, final(seen)@) == content_kind(*g, *pattern, old(seen)@, fuel as nat),
    decreases fuel, pattern,
{
    if is_dead(pattern) {
        return ContentType::Empty;
    }
    match pattern {
        Pattern::Empty | Pattern::NotAllowed => ContentType::Empty,
        Pattern::Element(_, _) => ContentType::Complex,
        Pattern::Text => ContentType::Complex,
        Pattern::Ref(_, _, key) => {
            if seen.contains(key) {
                // Cycle detected. Any cycle reachable from content context implies
                // the pattern eventually contains elements.
                return ContentType::Complex;
            }
            seen.insert(*key);
            match g.lookup(*key) {
                Some(body) => {
                    if fuel > 0 {
                        content_type_impl(g, body, seen, fuel - 1)
                    } else {
                        ContentType::Complex
                    }
                },
                None => ContentType::Empty,
            }
        },
        Pattern::DatatypeValue { .. } | Pattern::DatatypeName { .. } | Pattern::List(_) => {
            ContentType::Simple
        },
        Pattern::Attribute(_, _) => ContentType::Empty,
        Pattern::Group(members) => {
            assert(decreases_to!(*pattern => pattern->Group_0));
            content_type_among(g, members, seen, fuel)
        },
        Pattern::Interleave(members) => {
            assert(decreases_to!(*pattern => pattern->Interleave_0));
            content_type_among(g, members, seen, fuel)
        },
        Pattern::Choice(alts) => {
            assert(decreases_to!(*pattern => pattern->Choice_0));
            content_type_among(g, alts, seen, fuel)
        },
        Pattern::OneOrMore(p) => content_type_impl(g, p, seen, fuel),
        Pattern::ZeroOrMore(p) => content_type_impl(g, p, seen, fuel),
        Pattern::Optional(p) => content_type_impl(g, p, seen, fuel),
        // mixed = interleave(text, ...) and text is complex
        Pattern::Mixed(_) => ContentType::Complex,
    }
}

} // verus!
