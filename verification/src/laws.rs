//! What holds of the pool whatever is put into it, of the end of a start
//! tag whatever the pattern, of white space before the simplest patterns,
//! and of the numeric types whatever their bounds.

use vstd::prelude::*;
use crate::compiler::{compiled_kind, fold, has_bounds, initial, Param};
use crate::facets::{number_le, Bounds, Number};
use crate::content::dead;
use crate::model::{Grammar, Pattern};
use crate::pool::{lemma_intern_registered, LimitError, Pat, PatId, Pool, Step, MAX_PATTERNS};
use crate::nameclass::RelaxError;
use crate::restrictions::{faults_among, pattern_fault, start_among, start_fault, WalkContext};
use crate::settled::{
    lemma_close_settles, lemma_close_steady, lemma_intern_steady, lemma_settled_closed,
};
use crate::text::all_space;
use crate::span::Span;
use crate::xsd::{accepts, in_value_space, read_bound, XsdKind};

verus! {

/// Interning is idempotent: a pattern that was interned is found again under
/// the same number, and the pool stays as it is. Only a pool that holds
/// exactly `MAX_PATTERNS` patterns and not yet `p` is left out: it takes `p`
/// and then refuses every further call.
pub proof fn lemma_intern_idempotent(pool: Pool, p: Pat)
    requires
        pool.nodes.len() != MAX_PATTERNS || pool.index.contains_key(p),
    ensures
        pool.intern(p).pool.intern(p) == pool.intern(p),
{
}

/// Equal patterns share one number: two places of a well-formed pool that
/// hold the same pattern are one place. Only a place that was a
/// placeholder's is left out: it holds the pattern of its definition
/// beside the place of that definition.
pub proof fn lemma_equal_patterns_share(pool: Pool, a: PatId, b: PatId)
    requires
        pool.wf(),
        pool.has(a),
        pool.has(b),
        pool.node(a) == pool.node(b),
        !pool.was_placeholder(a.0 as int),
        !pool.was_placeholder(b.0 as int),
    ensures
        a == b,
{
    assert(pool.index.contains_key(pool.nodes[a.0 as int]));
    assert(pool.index.contains_key(pool.nodes[b.0 as int]));
}

/// A pattern of the pool is found again under its number, and the pool
/// stays as it is. A pool beyond `MAX_PATTERNS` refuses every call, and a
/// place that was a placeholder's holds a pattern that is found elsewhere.
pub proof fn lemma_intern_finds(pool: Pool, id: PatId)
    requires
        pool.wf(),
        pool.has(id),
        pool.nodes.len() <= MAX_PATTERNS,
        !pool.was_placeholder(id.0 as int),
    ensures
        pool.intern(pool.node(id)) == (Step { pool, result: Ok::<PatId, LimitError>(id) }),
{
    assert(pool.index.contains_key(pool.nodes[id.0 as int]));
}

/// A choice with `NotAllowed` is the other side, whichever number
/// `NotAllowed` stands under.
pub proof fn lemma_choice_with_not_allowed(pool: Pool, x: PatId, na: PatId)
    requires
        pool.node(na) is NotAllowed,
    ensures
        pool.choice(na, x) == (Step { pool, result: Ok::<PatId, LimitError>(x) }),
        !(pool.node(x) is NotAllowed) ==> pool.choice(x, na) == (Step {
            pool,
            result: Ok::<PatId, LimitError>(x),
        }),
{
}

impl Pool {
    /// The nullable flag that `p` holds is what its parts tell.
    pub open spec fn flag_sound(self, p: Pat) -> bool {
        match p {
            Pat::Choice(l, r, n) => n == (self.is_nullable(l) || self.is_nullable(r)),
            Pat::Group(l, r, n) => n == (self.is_nullable(l) && self.is_nullable(r)),
            Pat::Interleave(l, r, n) => n == (self.is_nullable(l) && self.is_nullable(r)),
            Pat::OneOrMore(a, n) => n == self.is_nullable(a),
            _ => true,
        }
    }

    /// Every nullable flag in the pool is what the parts of its pattern
    /// tell.
    pub open spec fn flags_sound(self) -> bool {
        forall|i: int| 0 <= i < self.nodes.len() ==> self.flag_sound(#[trigger] self.nodes[i])
    }

    /// Whether pattern `id` matches the empty sequence, computed from its
    /// parts down to the patterns that hold none. A part with a number that
    /// is not smaller than that of its pattern is taken by its flag.
    pub open spec fn nullable_by_descent(self, id: PatId) -> bool
        decreases id.0,
    {
        match self.node(id) {
            Pat::Choice(l, r, n) => if l.0 < id.0 && r.0 < id.0 {
                self.nullable_by_descent(l) || self.nullable_by_descent(r)
            } else {
                n
            },
            Pat::Group(l, r, n) => if l.0 < id.0 && r.0 < id.0 {
                self.nullable_by_descent(l) && self.nullable_by_descent(r)
            } else {
                n
            },
            Pat::Interleave(l, r, n) => if l.0 < id.0 && r.0 < id.0 {
                self.nullable_by_descent(l) && self.nullable_by_descent(r)
            } else {
                n
            },
            Pat::OneOrMore(a, n) => if a.0 < id.0 {
                self.nullable_by_descent(a)
            } else {
                n
            },
            p => p.nullable(),
        }
    }
}

/// Nullability agrees: in a pool whose flags are sound, the flag of every
/// pattern is what the descent through its parts computes.
pub proof fn lemma_nullable_agrees(pool: Pool, id: PatId)
    requires
        pool.wf(),
        pool.flags_sound(),
        pool.has(id),
    ensures
        pool.is_nullable(id) == pool.nullable_by_descent(id),
    decreases id.0,
{
    assert(pool.flag_sound(pool.nodes[id.0 as int]));
    assert(pool.pat_ok(pool.nodes[id.0 as int]));
    match pool.node(id) {
        Pat::Choice(l, r, _) | Pat::Group(l, r, _) | Pat::Interleave(l, r, _) => {
            if l.0 < id.0 && r.0 < id.0 {
                lemma_nullable_agrees(pool, l);
                lemma_nullable_agrees(pool, r);
            }
        },
        Pat::OneOrMore(a, _) => {
            if a.0 < id.0 {
                lemma_nullable_agrees(pool, a);
            }
        },
        _ => {},
    }
}

/// Interning a pattern whose flag is sound keeps the flags sound.
pub proof fn lemma_intern_keeps_flags(pool: Pool, p: Pat)
    requires
        pool.wf(),
        pool.pat_ok(p),
        pool.flags_sound(),
        pool.flag_sound(p),
    ensures
        pool.intern(p).pool.flags_sound(),
{
    let after = pool.intern(p).pool;
    assert forall|i: int| 0 <= i < after.nodes.len() implies after.flag_sound(
        #[trigger] after.nodes[i],
    ) by {
        if i < pool.nodes.len() {
            assert(pool.flag_sound(pool.nodes[i]));
            assert(pool.pat_ok(pool.nodes[i]));
        }
    }
}

/// `group` keeps the flags sound.
pub proof fn lemma_group_keeps_flags(pool: Pool, left: PatId, right: PatId)
    requires
        pool.wf(),
        pool.has(left),
        pool.has(right),
        pool.flags_sound(),
    ensures
        pool.group(left, right).pool.flags_sound(),
{
    lemma_intern_keeps_flags(pool, Pat::NotAllowed);
    lemma_intern_keeps_flags(
        pool,
        Pat::Group(left, right, pool.is_nullable(left) && pool.is_nullable(right)),
    );
}

/// `interleave` keeps the flags sound.
pub proof fn lemma_interleave_keeps_flags(pool: Pool, left: PatId, right: PatId)
    requires
        pool.wf(),
        pool.has(left),
        pool.has(right),
        pool.flags_sound(),
    ensures
        pool.interleave(left, right).pool.flags_sound(),
{
    lemma_intern_keeps_flags(pool, Pat::NotAllowed);
    lemma_intern_keeps_flags(
        pool,
        Pat::Interleave(left, right, pool.is_nullable(left) && pool.is_nullable(right)),
    );
}

/// `one_or_more` keeps the flags sound.
pub proof fn lemma_one_or_more_keeps_flags(pool: Pool, pattern: PatId)
    requires
        pool.wf(),
        pool.has(pattern),
        pool.flags_sound(),
    ensures
        pool.one_or_more(pattern).pool.flags_sound(),
{
    lemma_intern_keeps_flags(pool, Pat::OneOrMore(pattern, pool.is_nullable(pattern)));
}

/// `after` keeps the flags sound.
pub proof fn lemma_after_keeps_flags(pool: Pool, pa: PatId, pb: PatId)
    requires
        pool.wf(),
        pool.has(pa),
        pool.has(pb),
        pool.flags_sound(),
    ensures
        pool.after(pa, pb).pool.flags_sound(),
{
    lemma_intern_keeps_flags(pool, Pat::NotAllowed);
    lemma_intern_keeps_flags(pool, Pat::After(pa, pb));
}

/// Interning leaves the pool well formed and only adds to it.
pub proof fn lemma_intern_sound(pool: Pool, p: Pat)
    requires
        pool.wf(),
        pool.pat_ok(p),
    ensures
        pool.sound(pool.intern(p)),
{
    let after = pool.intern(p).pool;
    lemma_intern_registered(pool, p);
    assert forall|i: int| 0 <= i < after.nodes.len() implies after.pat_ok(
        #[trigger] after.nodes[i],
    ) by {
        if i < pool.nodes.len() {
            assert(pool.pat_ok(pool.nodes[i]));
        }
    }
}

/// Removing leaves from a tree of choices keeps the pool well formed and
/// its flags sound.
pub proof fn lemma_filter_keeps_flags(pool: Pool, id: PatId, exclude: Set<u32>, fuel: nat)
    requires
        pool.wf(),
        pool.has(id),
        pool.flags_sound(),
    ensures
        pool.filter_choice(id, exclude, fuel).pool.flags_sound(),
        pool.sound_option(pool.filter_choice(id, exclude, fuel)),
    decreases fuel,
{
    if fuel > 0 && !exclude.contains(id.0) {
        assert(pool.pat_ok(pool.nodes[id.0 as int]));
        match pool.node(id) {
            Pat::Choice(l, r, _) => {
                let f = (fuel - 1) as nat;
                lemma_filter_keeps_flags(pool, l, exclude, f);
                let left = pool.filter_choice(l, exclude, f);
                if left.result is Ok {
                    lemma_filter_keeps_flags(left.pool, r, exclude, f);
                    let right = left.pool.filter_choice(r, exclude, f);
                    match (left.result, right.result) {
                        (Ok(Some(a)), Ok(Some(b))) => {
                            let made = Pat::Choice(
                                a,
                                b,
                                right.pool.is_nullable(a) || right.pool.is_nullable(b),
                            );
                            lemma_intern_keeps_flags(right.pool, made);
                            lemma_intern_sound(right.pool, made);
                        },
                        _ => {},
                    }
                }
            },
            _ => {},
        }
    }
}

/// `choice` keeps the flags sound.
pub proof fn lemma_choice_keeps_flags(pool: Pool, left: PatId, right: PatId)
    requires
        pool.wf(),
        pool.has(left),
        pool.has(right),
        pool.flags_sound(),
    ensures
        pool.choice(left, right).pool.flags_sound(),
{
    let fuel = pool.nodes.len() + 1;
    match pool.choice_leaves(left, fuel) {
        Some(leaves) => {
            lemma_filter_keeps_flags(pool, right, leaves, fuel);
            let filtered = pool.filter_choice(right, leaves, fuel);
            match filtered.result {
                Ok(Some(kept)) => {
                    lemma_intern_keeps_flags(
                        filtered.pool,
                        Pat::Choice(
                            left,
                            kept,
                            filtered.pool.is_nullable(left) || filtered.pool.is_nullable(kept),
                        ),
                    );
                },
                _ => {},
            }
        },
        None => {},
    }
}

/// The pool that holds nothing has sound flags.
pub proof fn lemma_empty_pool_flags()
    ensures
        Pool::empty().flags_sound(),
        Pool::empty().wf(),
{
}

/// Reading and comparing: `value` denotes a number of the kind that lies in
/// its value space and between the numbers that `lo` and `hi` denote.
pub open spec fn read_between(kind: XsdKind, lo: Seq<char>, hi: Seq<char>, value: Seq<char>) -> bool {
    match (read_bound(kind, lo), read_bound(kind, hi), read_bound(kind, value)) {
        (Some(a), Some(b), Some(v)) => in_value_space(kind, v) && number_le(a, v) && number_le(
            v,
            b,
        ),
        _ => false,
    }
}

/// Bounds agree with reading and comparing: a numeric type compiles with
/// `minInclusive` and `maxInclusive` exactly when both denote numbers of the
/// type, the first not above the second, and the compiled type then accepts
/// exactly the texts that denote a number between the two. (`double` and `float`
/// are left out: they ask for the lexical form of a floating-point number
/// as well.)
pub proof fn lemma_bounds_agree(kind: XsdKind, span: Span, lo: Param, hi: Param, value: Seq<char>)
    requires
        has_bounds(kind),
        !(kind is Double || kind is Float),
        lo.name@ == "minInclusive"@,
        hi.name@ == "maxInclusive"@,
    ensures
        compiled_kind(kind, span, seq![lo, hi]) is Ok <==> (match (
            read_bound(kind, lo.value@),
            read_bound(kind, hi.value@),
        ) {
            (Some(a), Some(b)) => number_le(a, b),
            _ => false,
        }),
        compiled_kind(kind, span, seq![lo, hi]) matches Ok(shape) ==> accepts(shape, value)
            == read_between(kind, lo.value@, hi.value@, value),
{
    reveal_strlit("minInclusive");
    reveal_strlit("minExclusive");
    reveal_strlit("maxInclusive");
    let params = seq![lo, hi];
    assert(hi.name@[1] == 'a');
    assert(fold(kind, span, params, 0) == Ok::<_, crate::facets::Fault>(initial(kind)));
    assert(params[0] == lo && params[1] == hi);
    reveal_with_fuel(fold, 3);
}

/// The bounds with a lower bound added, inclusive or exclusive.
pub open spec fn with_lower(b: Bounds, val: Number, exclusive: bool) -> Result<Bounds, &'static str> {
    if exclusive {
        b.with_min_exclusive(val)
    } else {
        b.with_min_inclusive(val)
    }
}

/// The bounds with an upper bound added, inclusive or exclusive.
pub open spec fn with_upper(b: Bounds, val: Number, exclusive: bool) -> Result<Bounds, &'static str> {
    if exclusive {
        b.with_max_exclusive(val)
    } else {
        b.with_max_inclusive(val)
    }
}

/// Bounds are consistent whenever they are set: a bound that is added to
/// consistent bounds is refused or leaves them consistent, so the lower
/// bound never lies above the upper one and the two never meet where one of
/// them is exclusive.
pub proof fn lemma_bounds_stay_consistent(b: Bounds, val: Number, exclusive: bool)
    requires
        b.consistent(),
    ensures
        with_lower(b, val, exclusive) matches Ok(n) ==> n.consistent(),
        with_upper(b, val, exclusive) matches Ok(n) ==> n.consistent(),
        Bounds::unbounded().consistent(),
{
}

/// The order in which a lower and an upper bound are set does not matter:
/// both orders are refused or both give the same bounds.
pub proof fn lemma_bounds_in_any_order(
    b: Bounds,
    lo: Number,
    lo_exclusive: bool,
    hi: Number,
    hi_exclusive: bool,
)
    ensures
        ({
            let lower_first = match with_lower(b, lo, lo_exclusive) {
                Ok(n) => with_upper(n, hi, hi_exclusive),
                Err(why) => Err(why),
            };
            let upper_first = match with_upper(b, hi, hi_exclusive) {
                Ok(n) => with_lower(n, lo, lo_exclusive),
                Err(why) => Err(why),
            };
            &&& lower_first is Ok <==> upper_first is Ok
            &&& lower_first is Ok ==> lower_first == upper_first
        }),
{
}

/// Whether the number `v` satisfies the bound that the parameter `p` states
/// for a type of the given kind.
pub open spec fn bound_holds(kind: XsdKind, p: Param, v: Number) -> bool {
    match read_bound(kind, p.value@) {
        Some(b) => if p.name@ == "minInclusive"@ {
            number_le(b, v)
        } else if p.name@ == "minExclusive"@ {
            !number_le(v, b)
        } else if p.name@ == "maxInclusive"@ {
            number_le(v, b)
        } else {
            !number_le(b, v)
        },
        None => false,
    }
}

/// Whether the parameter states one of the four bounds.
pub open spec fn states_bound(p: Param) -> bool {
    p.name@ == "minInclusive"@ || p.name@ == "minExclusive"@ || p.name@ == "maxInclusive"@
        || p.name@ == "maxExclusive"@
}

/// The bounds after the first `n` parameters admit the numbers that satisfy
/// each of those parameters, and nothing but bounds was set.
proof fn lemma_fold_bounds(kind: XsdKind, span: Span, params: Seq<Param>, n: int, v: Number)
    requires
        has_bounds(kind),
        0 <= n <= params.len(),
        forall|i: int| 0 <= i < params.len() ==> states_bound(#[trigger] params[i]),
        fold(kind, span, params, n) is Ok,
    ensures
        ({
            let shape = fold(kind, span, params, n)->Ok_0;
            &&& shape.kind == kind
            &&& shape.pattern is None
            &&& shape.bounds.admits(v) == (forall|i: int|
                0 <= i < n ==> bound_holds(kind, #[trigger] params[i], v))
        }),
    decreases n,
{
    reveal_strlit("minInclusive");
    reveal_strlit("minExclusive");
    reveal_strlit("maxInclusive");
    reveal_strlit("maxExclusive");
    if n > 0 {
        lemma_fold_bounds(kind, span, params, n - 1, v);
        let before = fold(kind, span, params, n - 1)->Ok_0;
        let p = params[n - 1];
        assert(states_bound(p));
        let after = fold(kind, span, params, n)->Ok_0;
        assert(after == crate::compiler::apply_param(before, span, p)->Ok_0);
        assert("minInclusive"@[1] == 'i' && "maxInclusive"@[1] == 'a');
        assert("minInclusive"@[3] == 'I' && "minExclusive"@[3] == 'E');
        assert("maxInclusive"@[3] == 'I' && "maxExclusive"@[3] == 'E');
        assert("minExclusive"@[1] == 'i' && "maxExclusive"@[1] == 'a');
        assert(after.bounds.admits(v) == (before.bounds.admits(v) && bound_holds(kind, p, v)));
        if after.bounds.admits(v) {
            assert forall|i: int| 0 <= i < n implies bound_holds(kind, #[trigger] params[i], v) by {
                if i < n - 1 {
                }
            }
        } else if before.bounds.admits(v) {
            assert(!bound_holds(kind, params[n - 1], v));
        } else {
            let i = choose|i: int| 0 <= i < n - 1 && !bound_holds(kind, #[trigger] params[i], v);
            assert(!bound_holds(kind, params[i], v));
        }
    }
}

/// Every bound agrees with reading and comparing: a numeric type that was
/// compiled with any bounds accepts exactly the texts that denote a number
/// of its value space that satisfies each of the bounds. (`double` and `float`
/// are left out: they ask for the lexical form of a floating-point number
/// as well.)
pub proof fn lemma_every_bound_agrees(kind: XsdKind, span: Span, params: Seq<Param>, value: Seq<char>)
    requires
        has_bounds(kind),
        !(kind is Double || kind is Float),
        forall|i: int| 0 <= i < params.len() ==> states_bound(#[trigger] params[i]),
        compiled_kind(kind, span, params) is Ok,
    ensures
        accepts(compiled_kind(kind, span, params)->Ok_0, value) == (match read_bound(kind, value) {
            Some(v) => in_value_space(kind, v) && (forall|i: int|
                0 <= i < params.len() ==> bound_holds(kind, #[trigger] params[i], v)),
            None => false,
        }),
{
    match read_bound(kind, value) {
        Some(v) => {
            lemma_fold_bounds(kind, span, params, params.len() as int, v);
        },
        None => {
            lemma_fold_bounds(kind, span, params, params.len() as int, Number::Int(0));
        },
    }
}

/// The end of a start tag is idempotent: taken a second time, with the same
/// depth, it gives the pattern that it gave the first time and leaves the
/// pool as it is. Only a pool that the first time filled beyond
/// `MAX_PATTERNS` is left out: it refuses every further call.
pub proof fn lemma_close_idempotent(pool: Pool, id: PatId, fuel: nat)
    requires
        pool.wf(),
        pool.has(id),
        pool.close_deriv(id, fuel).result is Ok,
        pool.close_deriv(id, fuel).pool.nodes.len() <= MAX_PATTERNS,
    ensures
        ({
            let once = pool.close_deriv(id, fuel);
            once.pool.close_deriv(once.result.unwrap(), fuel) == once
        }),
{
    let once = pool.close_deriv(id, fuel);
    lemma_close_steady(pool, id, fuel);
    lemma_close_settles(pool, id, fuel);
    lemma_settled_closed(once.pool, once.result.unwrap(), fuel);
}

/// The patterns that hold no pattern to take a text in their place: text,
/// `Empty`, `NotAllowed`, elements, attributes, datatypes and values.
pub open spec fn without_parts(p: Pat) -> bool {
    matches!(
        p,
        Pat::Text | Pat::Empty | Pat::NotAllowed | Pat::Element(_, _) | Pat::Attribute(_, _)
            | Pat::Datatype(_) | Pat::DatatypeValue(_)
    )
}

/// White space taken twice by a pattern without parts gives what it gave
/// the first time and leaves the pool as it is. (Of groups, interleaves and
/// repetitions this does not hold: each white space may unfold one more
/// repetition, and a group gives the text to one part at a time.) A pool
/// that the first time filled beyond `MAX_PATTERNS` is left out.
pub proof fn lemma_white_space_twice(
    pool: Pool,
    id: PatId,
    text: Seq<char>,
    binding: spec_fn(Seq<char>) -> Option<Seq<char>>,
    fuel: nat,
)
    requires
        pool.wf(),
        pool.has(id),
        without_parts(pool.node(id)),
        all_space(text),
        pool.text_deriv(Map::empty(), id, text, binding, fuel).result is Ok,
        pool.text_deriv(Map::empty(), id, text, binding, fuel).pool.nodes.len() <= MAX_PATTERNS,
    ensures
        ({
            let once = pool.text_deriv(Map::empty(), id, text, binding, fuel);
            let twice = once.pool.text_deriv(Map::empty(), once.id(), text, binding, fuel);
            twice.pool == once.pool && twice.result == once.result
        }),
{
    let f = (fuel - 1) as nat;
    let once = pool.text_deriv(Map::empty(), id, text, binding, fuel);
    assert(once.pool == pool.text_step(Map::empty(), id, text, binding, f).pool);
    lemma_intern_steady(pool, Pat::Text);
    lemma_intern_steady(pool, Pat::Empty);
    lemma_intern_steady(pool, Pat::NotAllowed);
    let later = once.pool;
    let q = once.id();
    assert(later.text_deriv(Map::empty(), q, text, binding, fuel).pool == later.text_step(
        Map::empty(),
        q,
        text,
        binding,
        f,
    ).pool);
}

/// An optional pattern is checked as the choice between the pattern and
/// `empty` that it stands for: the restrictions find the same fault in
/// both, as the start of a schema and in every context within it.
pub proof fn lemma_optional_is_choice_with_empty(
    g: Grammar,
    content: Pattern,
    items: Vec<Pattern>,
    ctx: WalkContext,
    span: Span,
    seen: Set<usize>,
    fuel: nat,
)
    requires
        items@ == seq![content, Pattern::Empty],
    ensures
        pattern_fault(g, Pattern::Optional(Box::new(content)), ctx, span, seen, fuel)
            == pattern_fault(g, Pattern::Choice(items), ctx, span, seen, fuel),
        start_fault(g, Pattern::Optional(Box::new(content)), span, seen, fuel) == start_fault(
            g,
            Pattern::Choice(items),
            span,
            seen,
            fuel,
        ),
{
    let choice = Pattern::Choice(items);
    let empty = Pattern::Empty;
    assert(items@.len() == 2 && items@[0] == content && items@[1] == empty);
    assert(!dead(choice)) by {
        assert(!dead(choice->Choice_0@[1]));
    }
    // in a context
    let taken = if dead(content) {
        (None::<RelaxError>, seen)
    } else {
        pattern_fault(g, content, ctx, span, seen, fuel)
    };
    assert(pattern_fault(g, choice, ctx, span, seen, fuel) == faults_among(
        g,
        items@,
        0,
        ctx,
        span,
        seen,
        fuel,
    ));
    assert(faults_among(g, items@, 2, ctx, span, taken.1, fuel) == (None::<RelaxError>, taken.1));
    assert(faults_among(g, items@, 1, ctx, span, taken.1, fuel) == {
        let last = pattern_fault(g, empty, ctx, span, taken.1, fuel);
        if last.0 is Some {
            last
        } else {
            faults_among(g, items@, 2, ctx, span, last.1, fuel)
        }
    });
    assert(faults_among(g, items@, 0, ctx, span, seen, fuel) == if taken.0 is Some {
        taken
    } else {
        faults_among(g, items@, 1, ctx, span, taken.1, fuel)
    });
    // as a start
    let started = if dead(content) {
        (None::<RelaxError>, seen)
    } else {
        start_fault(g, content, span, seen, fuel)
    };
    assert(start_fault(g, choice, span, seen, fuel) == start_among(g, items@, 0, span, seen, fuel));
    assert(start_among(g, items@, 2, span, started.1, fuel) == (None::<RelaxError>, started.1));
    assert(start_among(g, items@, 1, span, started.1, fuel) == {
        let last = start_fault(g, empty, span, started.1, fuel);
        if last.0 is Some {
            last
        } else {
            start_among(g, items@, 2, span, last.1, fuel)
        }
    });
    assert(start_among(g, items@, 0, span, seen, fuel) == if started.0 is Some {
        started
    } else {
        start_among(g, items@, 1, span, started.1, fuel)
    });
}

/// A pattern that may repeat or be absent passes the restrictions exactly
/// when the choice between its repetition and `empty` passes them, as the
/// start of a schema and in every context within it, and the same
/// definitions are looked into. (The fault that is named may differ: the
/// one names `zeroOrMore` where the other names `oneOrMore` or `empty`.)
pub proof fn lemma_zero_or_more_passes_as_choice(
    g: Grammar,
    content: Pattern,
    items: Vec<Pattern>,
    ctx: WalkContext,
    span: Span,
    seen: Set<usize>,
    fuel: nat,
)
    requires
        items@ == seq![Pattern::OneOrMore(Box::new(content)), Pattern::Empty],
    ensures
        ({
            let short = pattern_fault(
                g,
                Pattern::ZeroOrMore(Box::new(content)),
                ctx,
                span,
                seen,
                fuel,
            );
            let long = pattern_fault(g, Pattern::Choice(items), ctx, span, seen, fuel);
            (short.0 is Some <==> long.0 is Some) && short.1 == long.1
        }),
        start_fault(g, Pattern::ZeroOrMore(Box::new(content)), span, seen, fuel).0 is Some,
        start_fault(g, Pattern::Choice(items), span, seen, fuel).0 is Some,
{
    let choice = Pattern::Choice(items);
    let repeated = Pattern::OneOrMore(Box::new(content));
    let empty = Pattern::Empty;
    assert(items@.len() == 2 && items@[0] == repeated && items@[1] == empty);
    assert(!dead(choice)) by {
        assert(!dead(choice->Choice_0@[1]));
    }
    assert(dead(repeated) == dead(content));
    let inside = WalkContext { in_one_or_more: true, ..ctx };
    let short = pattern_fault(g, Pattern::ZeroOrMore(Box::new(content)), ctx, span, seen, fuel);
    if !ctx.in_data_except {
        assert(short == pattern_fault(g, content, inside, span, seen, fuel));
        if !dead(content) {
            assert(pattern_fault(g, repeated, ctx, span, seen, fuel) == pattern_fault(
                g,
                content,
                inside,
                span,
                seen,
                fuel,
            ));
        } else {
            assert(pattern_fault(g, content, inside, span, seen, fuel) == (None::<RelaxError>, seen));
        }
    } else {
        assert(short.0 is Some && short.1 == seen);
        if !dead(content) {
            assert(pattern_fault(g, repeated, ctx, span, seen, fuel).0 is Some);
            assert(pattern_fault(g, repeated, ctx, span, seen, fuel).1 == seen);
        }
    }
    let taken = if dead(repeated) {
        (None::<RelaxError>, seen)
    } else {
        pattern_fault(g, repeated, ctx, span, seen, fuel)
    };
    assert(pattern_fault(g, choice, ctx, span, seen, fuel) == faults_among(
        g,
        items@,
        0,
        ctx,
        span,
        seen,
        fuel,
    ));
    assert(faults_among(g, items@, 2, ctx, span, taken.1, fuel) == (None::<RelaxError>, taken.1));
    assert(faults_among(g, items@, 1, ctx, span, taken.1, fuel) == {
        let last = pattern_fault(g, empty, ctx, span, taken.1, fuel);
        if last.0 is Some {
            last
        } else {
            faults_among(g, items@, 2, ctx, span, last.1, fuel)
        }
    });
    assert(faults_among(g, items@, 0, ctx, span, seen, fuel) == if taken.0 is Some {
        taken
    } else {
        faults_among(g, items@, 1, ctx, span, taken.1, fuel)
    });
    let started = if dead(repeated) {
        (None::<RelaxError>, seen)
    } else {
        start_fault(g, repeated, span, seen, fuel)
    };
    assert(start_fault(g, choice, span, seen, fuel) == start_among(g, items@, 0, span, seen, fuel));
    assert(start_among(g, items@, 1, span, started.1, fuel) == {
        let last = start_fault(g, empty, span, started.1, fuel);
        if last.0 is Some {
            last
        } else {
            start_among(g, items@, 2, span, last.1, fuel)
        }
    });
    assert(start_among(g, items@, 0, span, seen, fuel) == if started.0 is Some {
        started
    } else {
        start_among(g, items@, 1, span, started.1, fuel)
    });
}

} // verus!
