//! The restrictions that a schema has to meet before documents are
//! validated against it.
//!
//! The restrictions are those of a fully simplified schema. The patterns
//! here are not simplified, so the checks allow for what simplification
//! would remove: a pattern that matches nothing is not looked into, a group
//! of one member and `empty` counts as that member, and a reference stands
//! for its definition.

use vstd::prelude::*;
use std::collections::HashSet;
use crate::content::{
    attribute_names, can_group, collect_attribute_name_classes, collect_element_name_classes,
    content_kind, content_type, count_non_empty_members, dead, element_names, groupable,
    has_text, has_text_in, is_dead, non_empty_count, ContentType,
};
use crate::model::{DefineRule, Grammar, Pattern};
use crate::nameclass::{
    all_collected, attribute_name_fault, check_attribute_name_class, check_name_class, first_fault,
    infinite, name_class_fault, name_class_is_infinite, name_classes_overlap, overlap, verdict,
    Collected, CollectedNameClass, RelaxError,
};
use crate::span::Span;

verus! {

/// Tracking which restriction-relevant contexts we are inside.
#[derive(Clone, Copy, PartialEq, Eq, Structural, Debug)]
pub struct WalkContext {
    /// Inside a `list` pattern (7.1.3)
    pub in_list: bool,
    /// Inside `data/except` (7.1.4)
    pub in_data_except: bool,
    /// Inside an `attribute` pattern (7.1.1)
    pub in_attribute: bool,
    /// Inside a `oneOrMore` (or `zeroOrMore`) pattern (7.1.2)
    pub in_one_or_more: bool,
    /// Inside a `group` or `interleave` that is itself inside a `oneOrMore` (7.1.2)
    pub in_one_or_more_group: bool,
}

impl Default for WalkContext {
    fn default() -> (r: WalkContext)
        ensures
            r == outside(),
    {
        WalkContext {
            in_list: false,
            in_data_except: false,
            in_attribute: false,
            in_one_or_more: false,
            in_one_or_more_group: false,
        }
    }
}

/// Outside of every context.
pub open spec fn outside() -> WalkContext {
    WalkContext {
        in_list: false,
        in_data_except: false,
        in_attribute: false,
        in_one_or_more: false,
        in_one_or_more_group: false,
    }
}

/// The fault of a pattern that stands where it must not.
pub open spec fn restricted_at(span: Span, pattern_name: &'static str, context: &'static str) -> RelaxError {
    RelaxError::RestrictedPattern { span, pattern_name, context }
}

/// The kind of content of member `i`.
pub open spec fn kind_at(g: Grammar, members: Seq<Pattern>, i: int) -> ContentType {
    content_kind(g, members[i], Set::empty(), g.rules@.len()).0
}

/// Two members have kinds of content that cannot stand in one group.
pub open spec fn sequence_fault(g: Grammar, members: Seq<Pattern>, span: Span) -> Option<RelaxError> {
    if exists|i: int, j: int|
        0 <= i < j < members.len() && !can_group(
            #[trigger] kind_at(g, members, i),
            #[trigger] kind_at(g, members, j),
        ) {
        Some(restricted_at(span, "string sequence", "group/interleave"))
    } else {
        None
    }
}

/// A name class of `names` can hold a name that one of `acc` holds.
pub open spec fn clash(acc: Seq<Collected>, names: Seq<Collected>) -> bool {
    exists|a: int, b: int|
        0 <= a < acc.len() && 0 <= b < names.len() && overlap(#[trigger] acc[a], #[trigger] names[b])
}

/// An attribute of `items[i..]` can have the name of an attribute of an
/// earlier member, whose name classes are `acc`.
pub open spec fn attributes_overlap(g: Grammar, items: Seq<Pattern>, i: int, acc: Seq<Collected>) -> bool
    decreases items.len() - i,
{
    if i < 0 || i >= items.len() {
        false
    } else if dead(items[i]) {
        attributes_overlap(g, items, i + 1, acc)
    } else {
        let names = attribute_names(g, items[i], g.rules@.len());
        clash(acc, names) || attributes_overlap(g, items, i + 1, acc + names)
    }
}

/// What is wrong among the branches `items[i..]` of an interleave, where
/// the earlier branches have the elements `acc` and `text_seen` tells
/// whether one of them holds text: text in two branches, or elements that
/// can have one name in two branches.
pub open spec fn interleave_fault(
    g: Grammar,
    items: Seq<Pattern>,
    i: int,
    acc: Seq<Collected>,
    text_seen: bool,
    span: Span,
) -> Option<RelaxError>
    decreases items.len() - i,
{
    if i < 0 || i >= items.len() {
        None
    } else if dead(items[i]) {
        interleave_fault(g, items, i + 1, acc, text_seen, span)
    } else {
        let text = has_text_in(g, items[i], g.rules@.len());
        let names = element_names(g, items[i], g.rules@.len());
        if text && text_seen {
            Some(restricted_at(span, "text", "interleave (both branches)"))
        } else if clash(acc, names) {
            Some(RelaxError::OverlappingElements { span })
        } else {
            interleave_fault(g, items, i + 1, acc + names, text_seen || text, span)
        }
    }
}

/// The place of the first member that is not `empty`.
pub open spec fn first_non_empty(members: Seq<Pattern>) -> int
    decreases members.len(),
{
    if members.len() == 0 {
        0
    } else if !(members[0] is Empty) {
        0
    } else {
        1 + first_non_empty(members.drop_first())
    }
}

/// What is wrong with `p` as the start of a schema, and the definitions
/// that were looked into: after simplification only elements, choices of
/// them and `notAllowed` may be left.
pub open spec fn start_fault(g: Grammar, p: Pattern, span: Span, seen: Set<usize>, fuel: nat) -> (
    Option<RelaxError>,
    Set<usize>,
)
    decreases fuel, p, 0nat,
{
    if dead(p) {
        (None, seen)
    } else {
        match p {
            Pattern::Element(_, _) => (None, seen),
            Pattern::Choice(v) => start_among(g, v@, 0, span, seen, fuel),
            Pattern::NotAllowed => (None, seen),
            Pattern::Ref(_, _, key) => if seen.contains(key) {
                (None, seen)
            } else {
                match g.rule(key) {
                    Some(body) => if fuel > 0 {
                        start_fault(g, body, span, seen.insert(key), (fuel - 1) as nat)
                    } else {
                        (None, seen.insert(key))
                    },
                    None => (None, seen.insert(key)),
                }
            },
            Pattern::Optional(content) => {
                let first = if dead(*content) {
                    (None, seen)
                } else {
                    start_fault(g, *content, span, seen, fuel)
                };
                if first.0 is Some {
                    first
                } else {
                    (Some(restricted_at(span, "empty", "start")), first.1)
                }
            },
            Pattern::Group(v) => {
                let k = first_non_empty(v@);
                if non_empty_count(v@) == 1 && 0 <= k < v@.len() {
                    start_fault(g, v@[k], span, seen, fuel)
                } else {
                    (Some(restricted_at(span, "group", "start")), seen)
                }
            },
            Pattern::Interleave(v) => {
                let k = first_non_empty(v@);
                if non_empty_count(v@) == 1 && 0 <= k < v@.len() {
                    start_fault(g, v@[k], span, seen, fuel)
                } else {
                    (Some(restricted_at(span, "interleave", "start")), seen)
                }
            },
            Pattern::Text => (Some(restricted_at(span, "text", "start")), seen),
            Pattern::Empty => (Some(restricted_at(span, "empty", "start")), seen),
            Pattern::Attribute(_, _) => (Some(restricted_at(span, "attribute", "start")), seen),
            Pattern::List(_) => (Some(restricted_at(span, "list", "start")), seen),
            Pattern::OneOrMore(_) => (Some(restricted_at(span, "oneOrMore", "start")), seen),
            Pattern::ZeroOrMore(_) => (Some(restricted_at(span, "zeroOrMore", "start")), seen),
            Pattern::Mixed(_) => (Some(restricted_at(span, "mixed", "start")), seen),
            Pattern::DatatypeValue { .. } => (Some(restricted_at(span, "value", "start")), seen),
            Pattern::DatatypeName { .. } => (Some(restricted_at(span, "data", "start")), seen),
        }
    }
}

/// The first fault among the alternatives `items[i..]` of a start.
pub open spec fn start_among(
    g: Grammar,
    items: Seq<Pattern>,
    i: int,
    span: Span,
    seen: Set<usize>,
    fuel: nat,
) -> (Option<RelaxError>, Set<usize>)
    decreases fuel, items, items.len() - i,
{
    if i < 0 || i >= items.len() {
        (None, seen)
    } else if dead(items[i]) {
        start_among(g, items, i + 1, span, seen, fuel)
    } else {
        let first = start_fault(g, items[i], span, seen, fuel);
        if first.0 is Some {
            first
        } else {
            start_among(g, items, i + 1, span, first.1, fuel)
        }
    }
}

/// The context of the members of a group or an interleave: inside a
/// `oneOrMore`, more than one member that is not `empty` makes it a group
/// inside a `oneOrMore`.
pub open spec fn member_context(ctx: WalkContext, members: Seq<Pattern>) -> WalkContext {
    if ctx.in_one_or_more && non_empty_count(members) > 1 {
        WalkContext { in_one_or_more_group: true, ..ctx }
    } else {
        ctx
    }
}

/// What is wrong with an attribute in the context `ctx`, before its content
/// is looked into.
pub open spec fn attribute_fault(nc: crate::model::NameSet, ctx: WalkContext, span: Span) -> Option<
    RelaxError,
> {
    if ctx.in_attribute {
        Some(restricted_at(span, "attribute", "attribute"))
    } else if ctx.in_list {
        Some(restricted_at(span, "attribute", "list"))
    } else if ctx.in_data_except {
        Some(restricted_at(span, "attribute", "data/except"))
    } else if ctx.in_one_or_more_group {
        Some(restricted_at(span, "attribute", "oneOrMore//group"))
    } else if attribute_name_fault(nc) is Some {
        attribute_name_fault(nc)
    } else if name_class_fault(nc) is Some {
        name_class_fault(nc)
    } else if infinite(nc) && !ctx.in_one_or_more {
        Some(restricted_at(span, "attribute with infinite name class", "outside oneOrMore"))
    } else {
        None
    }
}

/// What is wrong with a group in the context `ctx`, before its members are
/// looked into.
pub open spec fn group_fault(g: Grammar, members: Seq<Pattern>, ctx: WalkContext, span: Span) -> Option<
    RelaxError,
> {
    if ctx.in_data_except {
        Some(restricted_at(span, "group", "data/except"))
    } else if !ctx.in_list && sequence_fault(g, members, span) is Some {
        sequence_fault(g, members, span)
    } else if attributes_overlap(g, members, 0, Seq::empty()) {
        Some(RelaxError::OverlappingAttributes { span })
    } else {
        None
    }
}

/// What is wrong with an interleave in the context `ctx`, before its
/// members are looked into.
pub open spec fn interleaving_fault(
    g: Grammar,
    members: Seq<Pattern>,
    ctx: WalkContext,
    span: Span,
) -> Option<RelaxError> {
    if ctx.in_list {
        Some(restricted_at(span, "interleave", "list"))
    } else if ctx.in_data_except {
        Some(restricted_at(span, "interleave", "data/except"))
    } else if sequence_fault(g, members, span) is Some {
        sequence_fault(g, members, span)
    } else if interleave_fault(g, members, 0, Seq::empty(), false, span) is Some {
        interleave_fault(g, members, 0, Seq::empty(), false, span)
    } else if attributes_overlap(g, members, 0, Seq::empty()) {
        Some(RelaxError::OverlappingAttributes { span })
    } else {
        None
    }
}

/// What is wrong with `p` in the context `ctx`, and the definitions that
/// were looked into: the first restriction that is not met, walking the
/// pattern from left to right. A pattern that matches nothing is not looked
/// into, and a definition is looked into where it is first referred to.
pub open spec fn pattern_fault(
    g: Grammar,
    p: Pattern,
    ctx: WalkContext,
    span: Span,
    seen: Set<usize>,
    fuel: nat,
) -> (Option<RelaxError>, Set<usize>)
    decreases fuel, p, 0nat,
{
    if dead(p) {
        (None, seen)
    } else {
        match p {
            Pattern::Element(nc, content) => if ctx.in_list {
                (Some(restricted_at(span, "element", "list")), seen)
            } else if ctx.in_data_except {
                (Some(restricted_at(span, "element", "data/except")), seen)
            } else if name_class_fault(nc@) is Some {
                (name_class_fault(nc@), seen)
            } else {
                pattern_fault(g, *content, outside(), span, seen, fuel)
            },
            Pattern::Attribute(nc, content) => if attribute_fault(nc@, ctx, span) is Some {
                (attribute_fault(nc@, ctx, span), seen)
            } else {
                pattern_fault(
                    g,
                    *content,
                    WalkContext { in_attribute: true, ..ctx },
                    span,
                    seen,
                    fuel,
                )
            },
            Pattern::List(content) => if ctx.in_list {
                (Some(restricted_at(span, "list", "list")), seen)
            } else if ctx.in_data_except {
                (Some(restricted_at(span, "list", "data/except")), seen)
            } else {
                pattern_fault(g, *content, WalkContext { in_list: true, ..ctx }, span, seen, fuel)
            },
            Pattern::DatatypeName { except, .. } => match except {
                Some(e) => pattern_fault(
                    g,
                    *e,
                    WalkContext { in_data_except: true, ..ctx },
                    span,
                    seen,
                    fuel,
                ),
                None => (None, seen),
            },
            Pattern::Choice(v) => faults_among(g, v@, 0, ctx, span, seen, fuel),
            Pattern::Group(v) => if group_fault(g, v@, ctx, span) is Some {
                (group_fault(g, v@, ctx, span), seen)
            } else {
                faults_among(g, v@, 0, member_context(ctx, v@), span, seen, fuel)
            },
            Pattern::Interleave(v) => if interleaving_fault(g, v@, ctx, span) is Some {
                (interleaving_fault(g, v@, ctx, span), seen)
            } else {
                faults_among(g, v@, 0, member_context(ctx, v@), span, seen, fuel)
            },
            Pattern::Mixed(content) => if ctx.in_list {
                (Some(restricted_at(span, "interleave", "list")), seen)
            } else if ctx.in_data_except {
                (Some(restricted_at(span, "interleave", "data/except")), seen)
            } else if has_text_in(g, *content, g.rules@.len()) {
                (
                    Some(
                        restricted_at(span, "text", "interleave (both branches via nested mixed)"),
                    ),
                    seen,
                )
            } else {
                pattern_fault(
                    g,
                    *content,
                    if ctx.in_one_or_more {
                        WalkContext { in_one_or_more_group: true, ..ctx }
                    } else {
                        ctx
                    },
                    span,
                    seen,
                    fuel,
                )
            },
            Pattern::OneOrMore(content) => if ctx.in_data_except {
                (Some(restricted_at(span, "oneOrMore", "data/except")), seen)
            } else {
                pattern_fault(
                    g,
                    *content,
                    WalkContext { in_one_or_more: true, ..ctx },
                    span,
                    seen,
                    fuel,
                )
            },
            Pattern::ZeroOrMore(content) => if ctx.in_data_except {
                (Some(restricted_at(span, "oneOrMore", "data/except")), seen)
            } else {
                pattern_fault(
                    g,
                    *content,
                    WalkContext { in_one_or_more: true, ..ctx },
                    span,
                    seen,
                    fuel,
                )
            },
            Pattern::Optional(content) => {
                let first = if dead(*content) {
                    (None, seen)
                } else {
                    pattern_fault(g, *content, ctx, span, seen, fuel)
                };
                if first.0 is None && ctx.in_data_except {
                    (Some(restricted_at(span, "empty", "data/except")), first.1)
                } else {
                    first
                }
            },
            Pattern::Ref(_, _, key) => if seen.contains(key) {
                (None, seen)
            } else {
                match g.rule(key) {
                    Some(body) => if fuel > 0 {
                        pattern_fault(g, body, ctx, span, seen.insert(key), (fuel - 1) as nat)
                    } else {
                        (None, seen.insert(key))
                    },
                    None => (None, seen.insert(key)),
                }
            },
            Pattern::Text => if ctx.in_list {
                (Some(restricted_at(span, "text", "list")), seen)
            } else if ctx.in_data_except {
                (Some(restricted_at(span, "text", "data/except")), seen)
            } else {
                (None, seen)
            },
            Pattern::Empty => if ctx.in_data_except {
                (Some(restricted_at(span, "empty", "data/except")), seen)
            } else {
                (None, seen)
            },
            Pattern::NotAllowed => (None, seen),
            Pattern::DatatypeValue { .. } => (None, seen),
        }
    }
}

/// The first fault among `items[i..]` in the context `ctx`.
pub open spec fn faults_among(
    g: Grammar,
    items: Seq<Pattern>,
    i: int,
    ctx: WalkContext,
    span: Span,
    seen: Set<usize>,
    fuel: nat,
) -> (Option<RelaxError>, Set<usize>)
    decreases fuel, items, items.len() - i,
{
    if i < 0 || i >= items.len() {
        (None, seen)
    } else if dead(items[i]) {
        faults_among(g, items, i + 1, ctx, span, seen, fuel)
    } else {
        let first = pattern_fault(g, items[i], ctx, span, seen, fuel);
        if first.0 is Some {
            first
        } else {
            faults_among(g, items, i + 1, ctx, span, first.1, fuel)
        }
    }
}

/// What is wrong with a schema whose start is `start`: first what its
/// start must not be, then what its patterns must not hold.
pub open spec fn schema_fault(g: Grammar, start: Pattern, span: Span) -> Option<RelaxError> {
    first_fault(
        start_fault(g, start, span, Set::empty(), g.rules@.len()).0,
        pattern_fault(g, start, outside(), span, Set::empty(), g.rules@.len()).0,
    )
}

fn restricted(span: Span, pattern_name: &'static str, context: &'static str) -> (r: RelaxError)
    ensures
        r == restricted_at(span, pattern_name, context),
{
    RelaxError::RestrictedPattern { span, pattern_name, context }
}

/// Check that all members of a group/interleave have groupable content types.
pub fn check_string_sequence(g: &Grammar, members: &Vec<Pattern>, span: Span) -> (r: Result<
    (),
    RelaxError,
>)
    ensures
        r == verdict(sequence_fault(*g, members@, span)),
{
    let n = members.len();
    let mut types: Vec<ContentType> = Vec::new();
    let mut k: usize = 0;
    while k < n
        invariant
            k <= n,
            n == members.len(),
            types@.len() == k,
            forall|a: int| 0 <= a < k ==> types@[a] == #[trigger] kind_at(*g, members@, a),
        decreases n - k,
    {
        types.push(content_type(g, &members[k], g.rules.len()));
        k += 1;
    }
    let mut i: usize = 0;
    while i < n
        invariant
            i <= n,
            n == members.len(),
            types@.len() == n,
            forall|a: int| 0 <= a < n ==> types@[a] == #[trigger] kind_at(*g, members@, a),
            forall|a: int, b: int|
                0 <= a < i && a < b < n ==> can_group(
                    #[trigger] kind_at(*g, members@, a),
                    #[trigger] kind_at(*g, members@, b),
                ),
        decreases n - i,
    {
        let mut j: usize = i + 1;
        while j < n
            invariant
                i < j <= n,
                n == members.len(),
                types@.len() == n,
                forall|a: int| 0 <= a < n ==> types@[a] == #[trigger] kind_at(*g, members@, a),
                forall|b: int|
                    i < b < j ==> can_group(
                        kind_at(*g, members@, i as int),
                        #[trigger] kind_at(*g, members@, b),
                    ),
            decreases n - j,
        {
            if !groupable(types[i], types[j]) {
                assert(!can_group(kind_at(*g, members@, i as int), kind_at(*g, members@, j as int)));
                return Err(restricted(span, "string sequence", "group/interleave"));
            }
            j += 1;
        }
        i += 1;
    }
    Ok(())
}

/// Whether a name class of `new` can hold a name that one of `all` holds.
fn clashes(all: &Vec<CollectedNameClass>, new: &Vec<CollectedNameClass>) -> (r: bool)
    ensures
        r == clash(all_collected(all@), all_collected(new@)),
{
    let ghost acc = all_collected(all@);
    let ghost names = all_collected(new@);
    let mut b: usize = 0;
    while b < new.len()
        invariant
            b <= new.len(),
            acc == all_collected(all@),
            names == all_collected(new@),
            forall|x: int, y: int|
                0 <= x < acc.len() && 0 <= y < b ==> !overlap(#[trigger] acc[x], #[trigger] names[y]),
        decreases new.len() - b,
    {
        let mut a: usize = 0;
        while a < all.len()
            invariant
                a <= all.len(),
                b < new.len(),
                acc == all_collected(all@),
                names == all_collected(new@),
                forall|x: int| 0 <= x < a ==> !overlap(#[trigger] acc[x], names[b as int]),
            decreases all.len() - a,
        {
            if name_classes_overlap(&all[a], &new[b]) {
                assert(overlap(acc[a as int], names[b as int]));
                return true;
            }
            a += 1;
        }
        b += 1;
    }
    false
}

/// In a group, attribute name classes must not overlap between siblings.
pub fn check_group_attribute_overlap(g: &Grammar, members: &Vec<Pattern>, span: Span) -> (r: Result<
    (),
    RelaxError,
>)
    ensures
        r == (if attributes_overlap(*g, members@, 0, Seq::empty()) {
            Err::<(), RelaxError>(RelaxError::OverlappingAttributes { span })
        } else {
            Ok(())
        }),
{
    let mut all_attr_names: Vec<CollectedNameClass> = Vec::new();
    assert(all_collected(all_attr_names@) =~= Seq::empty());
    let mut i: usize = 0;
    while i < members.len()
        invariant
            i <= members.len(),
            attributes_overlap(*g, members@, 0, Seq::empty()) == attributes_overlap(
                *g,
                members@,
                i as int,
                all_collected(all_attr_names@),
            ),
        decreases members.len() - i,
    {
        let member = &members[i];
        if !is_dead(member) {
            let mut member_attrs: Vec<CollectedNameClass> = Vec::new();
            assert(all_collected(member_attrs@) =~= Seq::empty());
            collect_attribute_name_classes(g, member, &mut member_attrs, g.rules.len());
            assert(all_collected(member_attrs@) =~= attribute_names(
                *g,
                *member,
                g.rules@.len(),
            ));
            if clashes(&all_attr_names, &member_attrs) {
                return Err(RelaxError::OverlappingAttributes { span });
            }
            let ghost before = all_collected(all_attr_names@);
            let ghost added = all_collected(member_attrs@);
            all_attr_names.append(&mut member_attrs);
            assert(all_collected(all_attr_names@) =~= before + added);
        }
        i += 1;
    }
    Ok(())
}

/// For interleave(pa, pb): element name classes from pa and pb must not
/// overlap, and text must not appear in both pa and pb.
pub fn check_interleave_restrictions(g: &Grammar, members: &Vec<Pattern>, span: Span) -> (r: Result<
    (),
    RelaxError,
>)
    ensures
        r == verdict(interleave_fault(*g, members@, 0, Seq::empty(), false, span)),
{
    // Collect element name classes and text presence from each branch
    let mut all_elem_names: Vec<CollectedNameClass> = Vec::new();
    assert(all_collected(all_elem_names@) =~= Seq::empty());
    let mut text_seen = false;
    let mut i: usize = 0;
    while i < members.len()
        invariant
            i <= members.len(),
            interleave_fault(*g, members@, 0, Seq::empty(), false, span) == interleave_fault(
                *g,
                members@,
                i as int,
                all_collected(all_elem_names@),
                text_seen,
                span,
            ),
        decreases members.len() - i,
    {
        let member = &members[i];
        if !is_dead(member) {
            // Check text overlap
            let text = has_text(g, member, g.rules.len());
            if text && text_seen {
                return Err(restricted(span, "text", "interleave (both branches)"));
            }
            // Check element name class overlap
            let mut member_elems: Vec<CollectedNameClass> = Vec::new();
            assert(all_collected(member_elems@) =~= Seq::empty());
            collect_element_name_classes(g, member, &mut member_elems, g.rules.len());
            assert(all_collected(member_elems@) =~= element_names(*g, *member, g.rules@.len()));
            if clashes(&all_elem_names, &member_elems) {
                return Err(RelaxError::OverlappingElements { span });
            }
            let ghost before = all_collected(all_elem_names@);
            let ghost added = all_collected(member_elems@);
            all_elem_names.append(&mut member_elems);
            assert(all_collected(all_elem_names@) =~= before + added);
            text_seen = text_seen || text;
        }
        i += 1;
    }
    Ok(())
}

/// The place of the first member that is not `empty`, or the number of
/// members.
fn find_non_empty(members: &Vec<Pattern>) -> (r: usize)
    ensures
        r == first_non_empty(members@),
        r <= members@.len(),
{
    let mut i: usize = 0;
    assert(members@.skip(0) =~= members@);
    while i < members.len()
        invariant
            i <= members.len(),
            first_non_empty(members@) == i + first_non_empty(members@.skip(i as int)),
        decreases members.len() - i,
    {
        assert(members@.skip(i as int)[0] == members@[i as int]);
        assert(members@.skip(i as int).drop_first() =~= members@.skip(i + 1));
        if !matches!(members[i], Pattern::Empty) {
            return i;
        }
        i += 1;
    }
    i
}

/// The first fault among the alternatives of a start.
fn check_start_among(
    g: &Grammar,
    members: &Vec<Pattern>,
    span: Span,
    seen: &mut HashSet<usize>,
    fuel: usize,
) -> (r: Result<(), RelaxError>)
    ensures
        (fault_of(r), final(seen)@) == start_among(*g, members@, 0, span, old(seen)@, fuel as nat),
    decreases fuel, members,
{
    let mut i: usize = 0;
    while i < members.len()
        invariant
            i <= members.len(),
            start_among(*g, members@, 0, span, old(seen)@, fuel as nat) == start_among(
                *g,
                members@,
                i as int,
                span,
                seen@,
                fuel as nat,
            ),
        decreases members.len() - i,
    {
        assert(decreases_to!(*members => members[i as int]));
        if !is_dead(&members[i]) {
            check_start(g, &members[i], span, seen, fuel)?;
        }
        i += 1;
    }
    Ok(())
}

/// The fault that a result holds.
pub open spec fn fault_of(r: Result<(), RelaxError>) -> Option<RelaxError> {
    match r {
        Ok(()) => None,
        Err(e) => Some(e),
    }
}

/// The start pattern must only contain element, choice, ref, and notAllowed.
pub fn check_start(g: &Grammar, pattern: &Pattern, span: Span, seen: &mut HashSet<usize>, fuel: usize) -> (r:
    Result<(), RelaxError>)
    ensures
        (fault_of(r), final(seen)@) == start_fault(*g, *pattern, span, old(seen)@, fuel as nat),
    decreases fuel, pattern,
{
    // Dead patterns are fine -- they simplify to notAllowed which is allowed in start
    if is_dead(pattern) {
        return Ok(());
    }
    match pattern {
        // Element is the desired content for start -- stop recursing
        Pattern::Element(_, _) => Ok(()),
        // Choice is allowed -- recurse into non-dead alternatives
        Pattern::Choice(alternatives) => {
            assert(decreases_to!(*pattern => pattern->Choice_0));
            check_start_among(g, alternatives, span, seen, fuel)
        },
        // NotAllowed is permitted
        Pattern::NotAllowed => Ok(()),
        // Ref: follow the reference and check the resolved pattern
        Pattern::Ref(_ref_span, _name, key) => {
            if seen.contains(key) {
                return Ok(());
            }
            seen.insert(*key);
            match g.lookup(*key) {
                Some(body) => {
                    if fuel > 0 {
                        check_start(g, body, span, seen, fuel - 1)
                    } else {
                        Ok(())
                    }
                },
                None => Ok(()),
            }
        },
        // Optional(p) = choice(p, empty) -- check p under start rules, then
        // the empty, which a start must not be
        Pattern::Optional(content) => {
            if !is_dead(content) {
                check_start(g, content, span, seen, fuel)?;
            }
            Err(restricted(span, "empty", "start"))
        },
        // Group/Interleave with a single non-empty member simplifies to that
        // member (RELAX NG section 4: group(p, empty) = p, interleave(p, empty) = p).
        Pattern::Group(members) => {
            let k = find_non_empty(members);
            if count_non_empty_members(members) == 1 && k < members.len() {
                assert(decreases_to!(*pattern => pattern->Group_0));
                assert(decreases_to!(*members => members[k as int]));
                return check_start(g, &members[k], span, seen, fuel);
            }
            // Multi-member group/interleave is forbidden under start
            Err(restricted(span, "group", "start"))
        },
        Pattern::Interleave(members) => {
            let k = find_non_empty(members);
            if count_non_empty_members(members) == 1 && k < members.len() {
                assert(decreases_to!(*pattern => pattern->Interleave_0));
                assert(decreases_to!(*members => members[k as int]));
                return check_start(g, &members[k], span, seen, fuel);
            }
            Err(restricted(span, "interleave", "start"))
        },
        // Everything else is forbidden under start
        Pattern::Text => Err(restricted(span, "text", "start")),
        Pattern::Empty => Err(restricted(span, "empty", "start")),
        Pattern::Attribute(_, _) => Err(restricted(span, "attribute", "start")),
        Pattern::List(_) => Err(restricted(span, "list", "start")),
        Pattern::OneOrMore(_) => Err(restricted(span, "oneOrMore", "start")),
        Pattern::ZeroOrMore(_) => Err(restricted(span, "zeroOrMore", "start")),
        Pattern::Mixed(_) => Err(restricted(span, "mixed", "start")),
        Pattern::DatatypeValue { .. } => Err(restricted(span, "value", "start")),
        Pattern::DatatypeName { .. } => Err(restricted(span, "data", "start")),
    }
}

/// The first fault among the members in the context `ctx`.
fn check_among(
    g: &Grammar,
    members: &Vec<Pattern>,
    ctx: WalkContext,
    span: Span,
    seen: &mut HashSet<usize>,
    fuel: usize,
) -> (r: Result<(), RelaxError>)
    ensures
        (fault_of(r), final(seen)@) == faults_among(
            *g,
            members@,
            0,
            ctx,
            span,
            old(seen)@,
            fuel as nat,
        ),
    decreases fuel, members,
{
    let mut i: usize = 0;
    while i < members.len()
        invariant
            i <= members.len(),
            faults_among(*g, members@, 0, ctx, span, old(seen)@, fuel as nat) == faults_among(
                *g,
                members@,
                i as int,
                ctx,
                span,
                seen@,
                fuel as nat,
            ),
        decreases members.len() - i,
    {
        assert(decreases_to!(*members => members[i as int]));
        // Skip dead members -- they simplify away
        if !is_dead(&members[i]) {
            check_pattern(g, &members[i], ctx, span, seen, fuel)?;
        }
        i += 1;
    }
    Ok(())
}

/// The context of the members of a group or an interleave.
fn context_of_members(ctx: WalkContext, members: &Vec<Pattern>) -> (r: WalkContext)
    ensures
        r == member_context(ctx, members@),
{
    // entering a group while inside oneOrMore activates the
    // oneOrMore//group//attribute restriction -- BUT only if the group
    // has more than one non-empty member (otherwise it simplifies away)
    let mut child_ctx = ctx;
    if ctx.in_one_or_more && count_non_empty_members(members) > 1 {
        child_ctx.in_one_or_more_group = true;
    }
    child_ctx
}

/// What is wrong with an attribute before its content is looked into.
fn check_attribute(nc: &crate::model::NameClass, ctx: WalkContext, span: Span) -> (r: Result<
    (),
    RelaxError,
>)
    ensures
        r == verdict(attribute_fault(nc@, ctx, span)),
{
    // 7.1.1: attribute inside attribute is forbidden
    if ctx.in_attribute {
        return Err(restricted(span, "attribute", "attribute"));
    }
    // 7.1.3: attribute inside list is forbidden
    if ctx.in_list {
        return Err(restricted(span, "attribute", "list"));
    }
    // 7.1.4: attribute inside data/except is forbidden
    if ctx.in_data_except {
        return Err(restricted(span, "attribute", "data/except"));
    }
    // 7.1.2: attribute inside group/interleave inside oneOrMore is forbidden
    if ctx.in_one_or_more_group {
        return Err(restricted(span, "attribute", "oneOrMore//group"));
    }
    // 7.1.1: xmlns attribute restrictions
    check_attribute_name_class(nc)?;
    // Check name class restrictions (anyName/nsName except rules)
    check_name_class(nc)?;
    // 7.3: attribute with infinite name class (anyName/nsName) must be
    // inside oneOrMore
    if name_class_is_infinite(nc) && !ctx.in_one_or_more {
        return Err(restricted(span, "attribute with infinite name class", "outside oneOrMore"));
    }
    Ok(())
}

/// What is wrong with a group before its members are looked into.
fn check_group(g: &Grammar, members: &Vec<Pattern>, ctx: WalkContext, span: Span) -> (r: Result<
    (),
    RelaxError,
>)
    ensures
        r == verdict(group_fault(*g, members@, ctx, span)),
{
    // 7.1.4: group inside data/except is forbidden
    if ctx.in_data_except {
        return Err(restricted(span, "group", "data/except"));
    }
    // 7.2: check string sequence restriction (content types must be groupable)
    // Inside list, group of data/value is allowed (whitespace-separated tokens)
    if !ctx.in_list {
        check_string_sequence(g, members, span)?;
    }
    // 7.3: check for overlapping attribute name classes within the group
    check_group_attribute_overlap(g, members, span)
}

/// What is wrong with an interleave before its members are looked into.
fn check_interleave(g: &Grammar, members: &Vec<Pattern>, ctx: WalkContext, span: Span) -> (r: Result<
    (),
    RelaxError,
>)
    ensures
        r == verdict(interleaving_fault(*g, members@, ctx, span)),
{
    // 7.1.3: interleave inside list is forbidden
    if ctx.in_list {
        return Err(restricted(span, "interleave", "list"));
    }
    // 7.1.4: interleave inside data/except is forbidden
    if ctx.in_data_except {
        return Err(restricted(span, "interleave", "data/except"));
    }
    // 7.2: check string sequence restriction (content types must be groupable)
    check_string_sequence(g, members, span)?;
    // 7.4: check for overlapping elements and duplicate text across
    // interleave branches
    check_interleave_restrictions(g, members, span)?;
    // 7.3: check for overlapping attribute name classes in interleave
    check_group_attribute_overlap(g, members, span)
}

/// The restrictions on a pattern that holds members or names.
fn check_compound(
    g: &Grammar,
    pattern: &Pattern,
    ctx: WalkContext,
    span: Span,
    seen: &mut HashSet<usize>,
    fuel: usize,
) -> (r: Result<(), RelaxError>)
    requires
        !dead(*pattern),
        *pattern is Element || *pattern is Attribute || *pattern is Choice || *pattern is Group
            || *pattern is Interleave || *pattern is Mixed,
    ensures
        (fault_of(r), final(seen)@) == pattern_fault(
            *g,
            *pattern,
            ctx,
            span,
            old(seen)@,
            fuel as nat,
        ),
    decreases fuel, pattern, 0nat,
{
    match pattern {
        Pattern::Element(name_class, content) => {
            // 7.1.3: element inside list is forbidden (list can only contain data patterns)
            if ctx.in_list {
                return Err(restricted(span, "element", "list"));
            }
            // 7.1.4: element inside data/except is forbidden
            if ctx.in_data_except {
                return Err(restricted(span, "element", "data/except"));
            }
            // Check name class restrictions
            check_name_class(name_class)?;
            // Element creates a new context boundary -- reset all flags
            check_pattern(g, content, WalkContext::default(), span, seen, fuel)
        },
        Pattern::Attribute(name_class, content) => {
            check_attribute(name_class, ctx, span)?;
            let mut child_ctx = ctx;
            child_ctx.in_attribute = true;
            check_pattern(g, content, child_ctx, span, seen, fuel)
        },
        Pattern::Choice(alternatives) => {
            assert(decreases_to!(*pattern => pattern->Choice_0));
            check_among(g, alternatives, ctx, span, seen, fuel)
        },
        Pattern::Group(members) => {
            check_group(g, members, ctx, span)?;
            let child_ctx = context_of_members(ctx, members);
            assert(decreases_to!(*pattern => pattern->Group_0));
            check_among(g, members, child_ctx, span, seen, fuel)
        },
        Pattern::Interleave(members) => {
            check_interleave(g, members, ctx, span)?;
            let child_ctx = context_of_members(ctx, members);
            assert(decreases_to!(*pattern => pattern->Interleave_0));
            check_among(g, members, child_ctx, span, seen, fuel)
        },
        Pattern::Mixed(content) => {
            // Mixed = interleave(text, content)
            // 7.1.3: interleave (and text) inside list is forbidden
            if ctx.in_list {
                return Err(restricted(span, "interleave", "list"));
            }
            // 7.1.4: interleave inside data/except is forbidden
            if ctx.in_data_except {
                return Err(restricted(span, "interleave", "data/except"));
            }
            // 7.4: mixed = interleave(text, content). If content also has text
            // (e.g., content is mixed(...)), that's text in both interleave branches.
            if has_text(g, content, g.rules.len()) {
                return Err(
                    restricted(span, "text", "interleave (both branches via nested mixed)"),
                );
            }
            let mut child_ctx = ctx;
            if ctx.in_one_or_more {
                child_ctx.in_one_or_more_group = true;
            }
            check_pattern(g, content, child_ctx, span, seen, fuel)
        },
        _ => Ok(()),
    }
}

/// The restrictions on a pattern, in the context `ctx`.
pub fn check_pattern(
    g: &Grammar,
    pattern: &Pattern,
    ctx: WalkContext,
    span: Span,
    seen: &mut HashSet<usize>,
    fuel: usize,
) -> (r: Result<(), RelaxError>)
    ensures
        (fault_of(r), final(seen)@) == pattern_fault(
            *g,
            *pattern,
            ctx,
            span,
            old(seen)@,
            fuel as nat,
        ),
    decreases fuel, pattern, 1nat,
{
    // Skip restriction checks on dead patterns -- they would be eliminated
    // during full simplification (RELAX NG section 4)
    if is_dead(pattern) {
        return Ok(());
    }
    match pattern {
        Pattern::List(content) => {
            // 7.1.3: list inside list is forbidden
            if ctx.in_list {
                return Err(restricted(span, "list", "list"));
            }
            // 7.1.4: list inside data/except is forbidden
            if ctx.in_data_except {
                return Err(restricted(span, "list", "data/except"));
            }
            let mut child_ctx = ctx;
            child_ctx.in_list = true;
            check_pattern(g, content, child_ctx, span, seen, fuel)
        },
        Pattern::DatatypeName { except, .. } => {
            if let Some(except_pat) = except {
                let mut child_ctx = ctx;
                child_ctx.in_data_except = true;
                check_pattern(g, except_pat, child_ctx, span, seen, fuel)?;
            }
            Ok(())
        },
        Pattern::OneOrMore(content) => {
            // 7.1.4: oneOrMore inside data/except is forbidden
            if ctx.in_data_except {
                return Err(restricted(span, "oneOrMore", "data/except"));
            }
            let mut child_ctx = ctx;
            child_ctx.in_one_or_more = true;
            check_pattern(g, content, child_ctx, span, seen, fuel)
        },
        Pattern::ZeroOrMore(content) => {
            // ZeroOrMore simplifies to choice(oneOrMore(content), empty)
            if ctx.in_data_except {
                return Err(restricted(span, "oneOrMore", "data/except"));
            }
            let mut child_ctx = ctx;
            child_ctx.in_one_or_more = true;
            check_pattern(g, content, child_ctx, span, seen, fuel)
        },
        Pattern::Optional(content) => {
            // Optional simplifies to choice(content, empty)
            if !is_dead(content) {
                check_pattern(g, content, ctx, span, seen, fuel)?;
            }
            // 7.1.4: empty forbidden in data/except
            if ctx.in_data_except {
                return Err(restricted(span, "empty", "data/except"));
            }
            Ok(())
        },
        Pattern::Ref(_ref_span, _name, key) => {
            // Follow refs and check the resolved pattern in the current context.
            if seen.contains(key) {
                return Ok(());
            }
            seen.insert(*key);
            match g.lookup(*key) {
                Some(body) => {
                    if fuel > 0 {
                        check_pattern(g, body, ctx, span, seen, fuel - 1)
                    } else {
                        Ok(())
                    }
                },
                None => Ok(()),
            }
        },
        // Leaf patterns -- check context restrictions
        Pattern::Text => {
            // 7.1.3: text forbidden in list
            if ctx.in_list {
                return Err(restricted(span, "text", "list"));
            }
            // 7.1.4: text forbidden in data/except
            if ctx.in_data_except {
                return Err(restricted(span, "text", "data/except"));
            }
            Ok(())
        },
        Pattern::Empty => {
            // 7.1.4: empty forbidden in data/except
            if ctx.in_data_except {
                return Err(restricted(span, "empty", "data/except"));
            }
            Ok(())
        },
        Pattern::NotAllowed => Ok(()),
        Pattern::DatatypeValue { .. } => Ok(()),
        _ => check_compound(g, pattern, ctx, span, seen, fuel),
    }
}

/// Check all restrictions of RELAX NG section 7 on the compiled pattern tree.
///
/// Called after compilation is complete and all references are resolved.
/// The `start_span` is the source span of the start rule, used for error reporting.
pub fn check_restrictions(g: &Grammar, start_rule: &DefineRule, start_span: Span) -> (r: Result<
    (),
    RelaxError,
>)
    ensures
        r == verdict(schema_fault(*g, start_rule.pattern, start_span)),
{
    let pattern = start_rule.pattern();
    // 7.1.5: start element restrictions
    let mut seen: HashSet<usize> = HashSet::new();
    check_start(g, pattern, start_span, &mut seen, g.rules.len())?;
    // Walk the full pattern tree for remaining restrictions (7.1.1-7.1.4, 7.3)
    let mut seen: HashSet<usize> = HashSet::new();
    let ctx = WalkContext::default();
    check_pattern(g, pattern, ctx, start_span, &mut seen, g.rules.len())?;
    Ok(())
}

} // verus!
