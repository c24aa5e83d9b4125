//! Patterns that the end of a start tag leaves as they are, and the proof
//! that taking the end of a start tag a second time changes nothing.

use vstd::prelude::*;
use crate::pool::{LimitError, Pat, PatId, Pool, Step, MAX_PATTERNS};

verus! {

impl Pool {
    /// `self` is `before` with patterns added: every pattern kept its
    /// number, and every pattern that was interned is still found.
    pub open spec fn continues(self, before: Pool) -> bool {
        &&& self.extends(before)
        &&& forall|p: Pat| #[trigger]
            before.index.contains_key(p) ==> self.index.contains_key(p) && self.index[p]
                == before.index[p]
    }

    /// The step left the pool well formed, only added to it and kept what
    /// was interned, and gave a number that the pool holds.
    pub open spec fn steady(self, step: Step<PatId>) -> bool {
        &&& step.pool.wf()
        &&& step.pool.continues(self)
        &&& step.result matches Ok(id) ==> step.pool.has(id)
    }

    /// As `steady`, for a step that may give no pattern.
    pub open spec fn steady_option(self, step: Step<Option<PatId>>) -> bool {
        &&& step.pool.wf()
        &&& step.pool.continues(self)
        &&& step.result matches Ok(Some(id)) ==> step.pool.has(id)
    }
}

/// Interning keeps what was interned, and the pattern then stands under
/// the number that was given.
pub proof fn lemma_intern_steady(pool: Pool, p: Pat)
    requires
        pool.wf(),
        pool.pat_ok(p),
        !(p is Placeholder),
    ensures
        pool.steady(pool.intern(p)),
        pool.intern(p).result matches Ok(id) ==> pool.intern(p).pool.node(id) == p
            && pool.intern(p).pool.index.contains_key(p) && pool.intern(p).pool.index[p] == id,
{
    let after = pool.intern(p).pool;
    crate::laws::lemma_intern_sound(pool, p);
    assert forall|q: Pat| #[trigger] after.index.contains_key(q) && !(q is Placeholder) implies after.node(
        after.index[q],
    ) == q by {
        if pool.index.contains_key(q) {
            assert(pool.has(pool.index[q]));
        }
    }
}

/// A pattern that is found in a pool is found under the same number in
/// every pool that continues it and is not full.
pub proof fn lemma_intern_again(pool: Pool, later: Pool, p: Pat, id: PatId)
    requires
        pool.intern(p) == (Step { pool, result: Ok::<PatId, LimitError>(id) }),
        later.continues(pool),
        later.nodes.len() <= MAX_PATTERNS,
    ensures
        later.intern(p) == (Step { pool: later, result: Ok::<PatId, LimitError>(id) }),
{
    if !pool.index.contains_key(p) {
        assert(pool.intern(p).pool.nodes.len() == pool.nodes.len() + 1);
    }
}

/// The leaves of a tree of choices are the same in a pool that has grown.
pub proof fn lemma_leaves_same(pool: Pool, later: Pool, t: PatId, fuel: nat)
    requires
        pool.wf(),
        pool.has(t),
        later.extends(pool),
    ensures
        later.choice_leaves(t, fuel) == pool.choice_leaves(t, fuel),
    decreases fuel,
{
    assert(pool.pat_ok(pool.nodes[t.0 as int]));
    assert(later.node(t) == pool.node(t));
    if fuel > 0 {
        match pool.node(t) {
            Pat::Choice(l, r, _) => {
                lemma_leaves_same(pool, later, l, (fuel - 1) as nat);
                lemma_leaves_same(pool, later, r, (fuel - 1) as nat);
            },
            _ => {},
        }
    }
}

/// The leaves of a tree of choices stay what they are when more depth is
/// allowed.
pub proof fn lemma_leaves_more(pool: Pool, t: PatId, fuel: nat, more: nat)
    requires
        pool.choice_leaves(t, fuel) is Some,
        more >= fuel,
    ensures
        pool.choice_leaves(t, more) == pool.choice_leaves(t, fuel),
    decreases fuel,
{
    match pool.node(t) {
        Pat::Choice(l, r, _) => {
            lemma_leaves_more(pool, l, (fuel - 1) as nat, (more - 1) as nat);
            lemma_leaves_more(pool, r, (fuel - 1) as nat, (more - 1) as nat);
        },
        _ => {},
    }
}

/// The leaves of a tree of choices stay what they are when the pool grows
/// and when more depth is allowed.
pub proof fn lemma_leaves_stable(pool: Pool, later: Pool, t: PatId, fuel: nat, more: nat)
    requires
        pool.wf(),
        pool.has(t),
        later.extends(pool),
        pool.choice_leaves(t, fuel) is Some,
        more >= fuel,
    ensures
        later.choice_leaves(t, more) == pool.choice_leaves(t, fuel),
{
    lemma_leaves_same(pool, later, t, fuel);
    lemma_leaves_more(later, t, fuel, more);
}

/// The leaves of a tree of choices are patterns of the pool that are no
/// choices, and there is at least one.
pub proof fn lemma_leaves_are_leaves(pool: Pool, t: PatId, fuel: nat)
    requires
        pool.wf(),
        pool.has(t),
        pool.choice_leaves(t, fuel) is Some,
    ensures
        exists|x: u32| pool.choice_leaves(t, fuel).unwrap().contains(x),
        forall|x: u32| #[trigger]
            pool.choice_leaves(t, fuel).unwrap().contains(x) ==> pool.has(PatId(x)) && !(pool.node(
                PatId(x),
            ) is Choice),
        !(pool.node(t) is Choice) ==> pool.choice_leaves(t, fuel).unwrap() =~= set![t.0],
    decreases fuel,
{
    assert(pool.pat_ok(pool.nodes[t.0 as int]));
    match pool.node(t) {
        Pat::Choice(l, r, _) => {
            lemma_leaves_are_leaves(pool, l, (fuel - 1) as nat);
            lemma_leaves_are_leaves(pool, r, (fuel - 1) as nat);
            let a = pool.choice_leaves(l, (fuel - 1) as nat).unwrap();
            let b = pool.choice_leaves(r, (fuel - 1) as nat).unwrap();
            let x = choose|x: u32| a.contains(x);
            assert(a.union(b).contains(x));
            assert(pool.choice_leaves(t, fuel) == Some(a.union(b)));
            assert(pool.choice_leaves(t, fuel).unwrap().contains(x));
        },
        _ => {
            assert(pool.choice_leaves(t, fuel) == Some(set![t.0]));
            assert(pool.choice_leaves(t, fuel).unwrap().contains(t.0));
        },
    }
}

/// Whether every number in the set names a pattern that is no choice.
pub open spec fn no_choices(pool: Pool, set: Set<u32>) -> bool {
    forall|x: u32| #[trigger] set.contains(x) ==> pool.has(PatId(x)) && !(pool.node(PatId(x)) is Choice)
}

/// `continues` is transitive.
pub proof fn lemma_continues_on(first: Pool, second: Pool, third: Pool)
    requires
        second.continues(first),
        third.continues(second),
    ensures
        third.continues(first),
{
}

/// Removing leaves from a tree of choices keeps what was interned. Where it
/// succeeds the tree was no deeper than `fuel`, and what is left of it has
/// leaves of the tree and none of the removed ones.
pub proof fn lemma_filter_steady(pool: Pool, t: PatId, exclude: Set<u32>, fuel: nat)
    requires
        pool.wf(),
        pool.has(t),
        no_choices(pool, exclude),
    ensures
        pool.steady_option(pool.filter_choice(t, exclude, fuel)),
        pool.filter_choice(t, exclude, fuel).result is Ok ==> pool.choice_leaves(t, fuel) is Some,
        pool.filter_choice(t, exclude, fuel).result matches Ok(Some(kept)) ==> {
            let later = pool.filter_choice(t, exclude, fuel).pool;
            &&& later.choice_leaves(kept, fuel) is Some
            &&& later.choice_leaves(kept, fuel).unwrap().subset_of(
                pool.choice_leaves(t, fuel).unwrap(),
            )
            &&& later.choice_leaves(kept, fuel).unwrap().disjoint(exclude)
        },
    decreases fuel,
{
    if fuel > 0 && !exclude.contains(t.0) {
        assert(pool.pat_ok(pool.nodes[t.0 as int]));
        match pool.node(t) {
            Pat::Choice(l, r, _) => {
                let f = (fuel - 1) as nat;
                lemma_filter_steady(pool, l, exclude, f);
                let left = pool.filter_choice(l, exclude, f);
                if left.result is Ok {
                    assert(no_choices(left.pool, exclude)) by {
                        assert forall|x: u32| #[trigger] exclude.contains(x) implies left.pool.has(
                            PatId(x),
                        ) && !(left.pool.node(PatId(x)) is Choice) by {
                            assert(pool.has(PatId(x)));
                        }
                    }
                    lemma_filter_steady(left.pool, r, exclude, f);
                    let right = left.pool.filter_choice(r, exclude, f);
                    lemma_continues_on(pool, left.pool, right.pool);
                    if right.result is Ok {
                        lemma_leaves_same(pool, left.pool, r, f);
                        let tl = pool.choice_leaves(l, f).unwrap();
                        let tr = pool.choice_leaves(r, f).unwrap();
                        assert(pool.choice_leaves(t, fuel) == Some(tl.union(tr)));
                        match (left.result, right.result) {
                            (Ok(Some(a)), Ok(Some(b))) => {
                                let made = Pat::Choice(
                                    a,
                                    b,
                                    right.pool.is_nullable(a) || right.pool.is_nullable(b),
                                );
                                lemma_intern_steady(right.pool, made);
                                let last = right.pool.intern(made);
                                lemma_continues_on(pool, right.pool, last.pool);
                                if last.result is Ok {
                                    let kept = last.result.unwrap();
                                    lemma_leaves_stable(left.pool, last.pool, a, f, f);
                                    lemma_leaves_stable(right.pool, last.pool, b, f, f);
                                    let ka = last.pool.choice_leaves(a, f).unwrap();
                                    let kb = last.pool.choice_leaves(b, f).unwrap();
                                    assert(last.pool.choice_leaves(kept, fuel) == Some(ka.union(kb)));
                                }
                            },
                            (Ok(Some(a)), Ok(None)) => {
                                lemma_leaves_stable(left.pool, right.pool, a, f, fuel);
                            },
                            (Ok(None), Ok(Some(b))) => {
                                lemma_leaves_stable(right.pool, right.pool, b, f, fuel);
                            },
                            _ => {},
                        }
                    }
                }
            },
            _ => {
                assert(pool.choice_leaves(t, fuel) == Some(set![t.0]));
            },
        }
    }
}

impl Pool {
    /// The two sides of the choice `id` share no leaf, neither is
    /// `NotAllowed`, and the choice is found under its number.
    pub open spec fn apart(self, id: PatId, left: PatId, right: PatId, nullable: bool) -> bool {
        let fuel = self.nodes.len() + 1;
        &&& !(self.node(left) is NotAllowed)
        &&& !(self.node(right) is NotAllowed)
        &&& self.choice_leaves(left, fuel) is Some
        &&& self.choice_leaves(right, fuel) is Some
        &&& self.choice_leaves(left, fuel).unwrap().disjoint(
            self.choice_leaves(right, fuel).unwrap(),
        )
        &&& nullable == (self.is_nullable(left) || self.is_nullable(right))
        &&& self.index.contains_key(Pat::Choice(left, right, nullable))
        &&& self.index[Pat::Choice(left, right, nullable)] == id
    }

    /// Pattern `id` holds no attribute outside its elements and is built as
    /// the constructors of the pool build: no part of it can be simplified,
    /// and each part is found under its number. `fuel` bounds the depth.
    pub open spec fn settled(self, id: PatId, fuel: nat) -> bool
        decreases fuel,
    {
        if fuel == 0 || !self.has(id) {
            false
        } else {
            let f = (fuel - 1) as nat;
            let here = Step { pool: self, result: Ok::<PatId, LimitError>(id) };
            match self.node(id) {
                Pat::After(a, b) => self.settled(a, f) && self.after(a, b) == here,
                Pat::Group(a, b, _) => self.settled(a, f) && self.settled(b, f) && self.group(a, b)
                    == here,
                Pat::Interleave(a, b, _) => self.settled(a, f) && self.settled(b, f)
                    && self.interleave(a, b) == here,
                Pat::OneOrMore(a, _) => self.settled(a, f) && self.one_or_more(a) == here,
                Pat::Choice(a, b, n) => self.settled(a, f) && self.settled(b, f) && self.apart(
                    id,
                    a,
                    b,
                    n,
                ),
                Pat::Attribute(_, _) => false,
                _ => true,
            }
        }
    }
}

/// A settled pattern is settled at every greater depth.
pub proof fn lemma_settled_more(pool: Pool, id: PatId, fuel: nat, more: nat)
    requires
        pool.settled(id, fuel),
        more >= fuel,
    ensures
        pool.settled(id, more),
    decreases fuel,
{
    let f = (fuel - 1) as nat;
    let m = (more - 1) as nat;
    match pool.node(id) {
        Pat::After(a, _) | Pat::OneOrMore(a, _) => {
            lemma_settled_more(pool, a, f, m);
        },
        Pat::Group(a, b, _) | Pat::Interleave(a, b, _) | Pat::Choice(a, b, _) => {
            lemma_settled_more(pool, a, f, m);
            lemma_settled_more(pool, b, f, m);
        },
        _ => {},
    }
}

/// A settled pattern is settled in every pool that continues this one and
/// is not full.
pub proof fn lemma_settled_later(pool: Pool, later: Pool, id: PatId, fuel: nat)
    requires
        pool.wf(),
        later.continues(pool),
        later.nodes.len() <= MAX_PATTERNS,
        pool.settled(id, fuel),
    ensures
        later.settled(id, fuel),
    decreases fuel,
{
    let f = (fuel - 1) as nat;
    assert(pool.pat_ok(pool.nodes[id.0 as int]));
    assert(later.node(id) == pool.node(id));
    match pool.node(id) {
        Pat::After(a, b) => {
            lemma_settled_later(pool, later, a, f);
            assert(later.node(a) == pool.node(a) && later.node(b) == pool.node(b));
            if pool.node(a) is NotAllowed || pool.node(b) is NotAllowed {
                lemma_intern_again(pool, later, Pat::NotAllowed, id);
            } else {
                lemma_intern_again(pool, later, Pat::After(a, b), id);
            }
        },
        Pat::Group(a, b, _) => {
            lemma_settled_later(pool, later, a, f);
            lemma_settled_later(pool, later, b, f);
            assert(later.node(a) == pool.node(a) && later.node(b) == pool.node(b));
            if pool.node(a) is NotAllowed || pool.node(b) is NotAllowed {
                lemma_intern_again(pool, later, Pat::NotAllowed, id);
            } else if pool.node(a) is Empty || pool.node(b) is Empty {
            } else {
                lemma_intern_again(
                    pool,
                    later,
                    Pat::Group(a, b, pool.is_nullable(a) && pool.is_nullable(b)),
                    id,
                );
            }
        },
        Pat::Interleave(a, b, _) => {
            lemma_settled_later(pool, later, a, f);
            lemma_settled_later(pool, later, b, f);
            assert(later.node(a) == pool.node(a) && later.node(b) == pool.node(b));
            if pool.node(a) is NotAllowed || pool.node(b) is NotAllowed {
                lemma_intern_again(pool, later, Pat::NotAllowed, id);
            } else if pool.node(a) is Empty || pool.node(b) is Empty {
            } else {
                lemma_intern_again(
                    pool,
                    later,
                    Pat::Interleave(a, b, pool.is_nullable(a) && pool.is_nullable(b)),
                    id,
                );
            }
        },
        Pat::OneOrMore(a, _) => {
            lemma_settled_later(pool, later, a, f);
            assert(later.node(a) == pool.node(a));
            lemma_intern_again(pool, later, Pat::OneOrMore(a, pool.is_nullable(a)), id);
        },
        Pat::Choice(a, b, n) => {
            lemma_settled_later(pool, later, a, f);
            lemma_settled_later(pool, later, b, f);
            assert(later.node(a) == pool.node(a) && later.node(b) == pool.node(b));
            lemma_leaves_stable(pool, later, a, pool.nodes.len() + 1, later.nodes.len() + 1);
            lemma_leaves_stable(pool, later, b, pool.nodes.len() + 1, later.nodes.len() + 1);
        },
        _ => {},
    }
}

/// Removing leaves that a settled tree of choices does not have gives the
/// tree itself and leaves the pool as it is.
pub proof fn lemma_filter_nothing(pool: Pool, t: PatId, exclude: Set<u32>, fuel: nat, depth: nat)
    requires
        pool.wf(),
        pool.nodes.len() <= MAX_PATTERNS,
        pool.settled(t, depth),
        no_choices(pool, exclude),
        pool.choice_leaves(t, fuel) is Some,
        pool.choice_leaves(t, fuel).unwrap().disjoint(exclude),
    ensures
        pool.filter_choice(t, exclude, fuel) == (Step {
            pool,
            result: Ok::<Option<PatId>, LimitError>(Some(t)),
        }),
    decreases fuel,
{
    assert(pool.pat_ok(pool.nodes[t.0 as int]));
    let f = (fuel - 1) as nat;
    match pool.node(t) {
        Pat::Choice(x, y, n) => {
            let tx = pool.choice_leaves(x, f).unwrap();
            let ty = pool.choice_leaves(y, f).unwrap();
            assert(pool.choice_leaves(t, fuel) == Some(tx.union(ty)));
            assert(tx.disjoint(exclude)) by {
                assert forall|v: u32| tx.contains(v) implies !exclude.contains(v) by {
                    assert(tx.union(ty).contains(v));
                }
            }
            assert(ty.disjoint(exclude)) by {
                assert forall|v: u32| ty.contains(v) implies !exclude.contains(v) by {
                    assert(tx.union(ty).contains(v));
                }
            }
            lemma_filter_nothing(pool, x, exclude, f, (depth - 1) as nat);
            lemma_filter_nothing(pool, y, exclude, f, (depth - 1) as nat);
        },
        _ => {
            assert(pool.choice_leaves(t, fuel) == Some(set![t.0]));
            assert(set![t.0].contains(t.0));
        },
    }
}

/// What is left of a settled tree of choices after removing leaves is
/// settled, and is not `NotAllowed`.
pub proof fn lemma_filter_settled(pool: Pool, t: PatId, exclude: Set<u32>, fuel: nat, depth: nat)
    requires
        pool.wf(),
        no_choices(pool, exclude),
        pool.settled(t, depth),
        !(pool.node(t) is NotAllowed),
        fuel <= pool.nodes.len() + 1,
        pool.filter_choice(t, exclude, fuel).result matches Ok(Some(_)),
        pool.filter_choice(t, exclude, fuel).pool.nodes.len() <= MAX_PATTERNS,
    ensures
        ({
            let step = pool.filter_choice(t, exclude, fuel);
            let kept = step.result.unwrap().unwrap();
            step.pool.settled(kept, depth) && !(step.pool.node(kept) is NotAllowed)
        }),
    decreases fuel,
{
    assert(pool.pat_ok(pool.nodes[t.0 as int]));
    let f = (fuel - 1) as nat;
    let d = (depth - 1) as nat;
    match pool.node(t) {
        Pat::Choice(x, y, n) => {
            lemma_filter_steady(pool, x, exclude, f);
            let left = pool.filter_choice(x, exclude, f);
            assert(no_choices(left.pool, exclude)) by {
                assert forall|v: u32| #[trigger] exclude.contains(v) implies left.pool.has(PatId(v))
                    && !(left.pool.node(PatId(v)) is Choice) by {
                    assert(pool.has(PatId(v)));
                }
            }
            lemma_filter_steady(left.pool, y, exclude, f);
            let right = left.pool.filter_choice(y, exclude, f);
            lemma_continues_on(pool, left.pool, right.pool);
            lemma_leaves_same(pool, left.pool, y, f);
            let tx = pool.choice_leaves(x, f).unwrap();
            let ty = pool.choice_leaves(y, f).unwrap();
            lemma_leaves_more(pool, x, f, pool.nodes.len() + 1);
            lemma_leaves_more(pool, y, f, pool.nodes.len() + 1);
            assert(tx.disjoint(ty));
            match (left.result, right.result) {
                (Ok(Some(a)), Ok(None)) => {
                    lemma_filter_settled(pool, x, exclude, f, d);
                    lemma_settled_later(left.pool, right.pool, a, d);
                    lemma_settled_more(right.pool, a, d, depth);
                },
                (Ok(None), Ok(Some(b))) => {
                    lemma_settled_later(pool, left.pool, y, d);
                    lemma_filter_settled(left.pool, y, exclude, f, d);
                    lemma_settled_more(right.pool, b, d, depth);
                },
                (Ok(Some(a)), Ok(Some(b))) => {
                    let made = Pat::Choice(
                        a,
                        b,
                        right.pool.is_nullable(a) || right.pool.is_nullable(b),
                    );
                    lemma_intern_steady(right.pool, made);
                    let last = right.pool.intern(made);
                    let kept = last.result.unwrap();
                    lemma_continues_on(left.pool, right.pool, last.pool);
                    lemma_filter_settled(pool, x, exclude, f, d);
                    lemma_settled_later(left.pool, last.pool, a, d);
                    lemma_settled_later(pool, left.pool, y, d);
                    lemma_filter_settled(left.pool, y, exclude, f, d);
                    lemma_settled_later(right.pool, last.pool, b, d);
                    lemma_leaves_stable(left.pool, last.pool, a, f, last.pool.nodes.len() + 1);
                    lemma_leaves_stable(right.pool, last.pool, b, f, last.pool.nodes.len() + 1);
                    let ka = left.pool.choice_leaves(a, f).unwrap();
                    let kb = right.pool.choice_leaves(b, f).unwrap();
                    assert(ka.disjoint(kb)) by {
                        assert forall|v: u32| ka.contains(v) implies !kb.contains(v) by {
                            assert(tx.contains(v));
                            if kb.contains(v) {
                                assert(ty.contains(v));
                            }
                        }
                    }
                    assert(last.pool.node(a) == right.pool.node(a));
                    assert(last.pool.node(b) == right.pool.node(b));
                    assert(last.pool.apart(kept, a, b, made->Choice_2));
                },
                _ => {},
            }
        },
        _ => {},
    }
}

/// `after` keeps what was interned.
pub proof fn lemma_after_steady(pool: Pool, a: PatId, b: PatId)
    requires
        pool.wf(),
        pool.has(a),
        pool.has(b),
    ensures
        pool.steady(pool.after(a, b)),
{
    lemma_intern_steady(pool, Pat::NotAllowed);
    lemma_intern_steady(pool, Pat::After(a, b));
}

/// `group` keeps what was interned.
pub proof fn lemma_group_steady(pool: Pool, a: PatId, b: PatId)
    requires
        pool.wf(),
        pool.has(a),
        pool.has(b),
    ensures
        pool.steady(pool.group(a, b)),
{
    lemma_intern_steady(pool, Pat::NotAllowed);
    lemma_intern_steady(pool, Pat::Group(a, b, pool.is_nullable(a) && pool.is_nullable(b)));
}

/// `interleave` keeps what was interned.
pub proof fn lemma_interleave_steady(pool: Pool, a: PatId, b: PatId)
    requires
        pool.wf(),
        pool.has(a),
        pool.has(b),
    ensures
        pool.steady(pool.interleave(a, b)),
{
    lemma_intern_steady(pool, Pat::NotAllowed);
    lemma_intern_steady(pool, Pat::Interleave(a, b, pool.is_nullable(a) && pool.is_nullable(b)));
}

/// `one_or_more` keeps what was interned.
pub proof fn lemma_one_or_more_steady(pool: Pool, a: PatId)
    requires
        pool.wf(),
        pool.has(a),
    ensures
        pool.steady(pool.one_or_more(a)),
{
    lemma_intern_steady(pool, Pat::OneOrMore(a, pool.is_nullable(a)));
}

/// `choice` keeps what was interned.
pub proof fn lemma_choice_steady(pool: Pool, a: PatId, b: PatId)
    requires
        pool.wf(),
        pool.has(a),
        pool.has(b),
    ensures
        pool.steady(pool.choice(a, b)),
{
    let fuel = pool.nodes.len() + 1;
    match pool.choice_leaves(a, fuel) {
        Some(leaves) => {
            lemma_leaves_are_leaves(pool, a, fuel);
            lemma_filter_steady(pool, b, leaves, fuel);
            let filtered = pool.filter_choice(b, leaves, fuel);
            match filtered.result {
                Ok(Some(kept)) => {
                    let made = Pat::Choice(
                        a,
                        kept,
                        filtered.pool.is_nullable(a) || filtered.pool.is_nullable(kept),
                    );
                    lemma_intern_steady(filtered.pool, made);
                    lemma_continues_on(pool, filtered.pool, filtered.pool.intern(made).pool);
                },
                _ => {},
            }
        },
        None => {},
    }
}

/// The end of a start tag keeps what was interned.
pub proof fn lemma_close_steady(pool: Pool, id: PatId, fuel: nat)
    requires
        pool.wf(),
        pool.has(id),
    ensures
        pool.steady(pool.close_deriv(id, fuel)),
    decreases fuel,
{
    if fuel > 0 {
        let f = (fuel - 1) as nat;
        assert(pool.pat_ok(pool.nodes[id.0 as int]));
        match pool.node(id) {
            Pat::After(pa, pb) => {
                lemma_close_steady(pool, pa, f);
                let first = pool.close_deriv(pa, f);
                if let Ok(a) = first.result {
                    lemma_after_steady(first.pool, a, pb);
                    lemma_continues_on(pool, first.pool, first.pool.after(a, pb).pool);
                }
            },
            Pat::Choice(pa, pb, _) | Pat::Group(pa, pb, _) | Pat::Interleave(pa, pb, _) => {
                lemma_close_steady(pool, pa, f);
                let first = pool.close_deriv(pa, f);
                if let Ok(a) = first.result {
                    lemma_close_steady(first.pool, pb, f);
                    let second = first.pool.close_deriv(pb, f);
                    lemma_continues_on(pool, first.pool, second.pool);
                    if let Ok(b) = second.result {
                        lemma_choice_steady(second.pool, a, b);
                        lemma_group_steady(second.pool, a, b);
                        lemma_interleave_steady(second.pool, a, b);
                        lemma_continues_on(pool, second.pool, second.pool.choice(a, b).pool);
                        lemma_continues_on(pool, second.pool, second.pool.group(a, b).pool);
                        lemma_continues_on(pool, second.pool, second.pool.interleave(a, b).pool);
                    }
                }
            },
            Pat::OneOrMore(p, _) => {
                lemma_close_steady(pool, p, f);
                let inner = pool.close_deriv(p, f);
                if let Ok(q) = inner.result {
                    lemma_one_or_more_steady(inner.pool, q);
                    lemma_continues_on(pool, inner.pool, inner.pool.one_or_more(q).pool);
                }
            },
            Pat::Attribute(_, _) => {
                lemma_intern_steady(pool, Pat::NotAllowed);
            },
            _ => {},
        }
    }
}

/// A choice whose sides are apart is what `choice` gives for them.
pub proof fn lemma_choice_again(pool: Pool, id: PatId, a: PatId, b: PatId, n: bool, depth: nat)
    requires
        pool.wf(),
        pool.nodes.len() <= MAX_PATTERNS,
        pool.has(a),
        pool.settled(b, depth),
        pool.apart(id, a, b, n),
    ensures
        pool.choice(a, b) == (Step { pool, result: Ok::<PatId, LimitError>(id) }),
{
    let fuel = pool.nodes.len() + 1;
    let la = pool.choice_leaves(a, fuel).unwrap();
    let lb = pool.choice_leaves(b, fuel).unwrap();
    lemma_leaves_are_leaves(pool, a, fuel);
    lemma_leaves_are_leaves(pool, b, fuel);
    if a == b {
        let x = choose|x: u32| la.contains(x);
        assert(lb.contains(x));
    }
    assert(lb.disjoint(la));
    lemma_filter_nothing(pool, b, la, fuel, depth);
}

/// A settled pattern is left as it is by the end of a start tag, and so is
/// the pool.
pub proof fn lemma_settled_closed(pool: Pool, id: PatId, fuel: nat)
    requires
        pool.wf(),
        pool.nodes.len() <= MAX_PATTERNS,
        pool.settled(id, fuel),
    ensures
        pool.close_deriv(id, fuel) == (Step { pool, result: Ok::<PatId, LimitError>(id) }),
    decreases fuel,
{
    let f = (fuel - 1) as nat;
    assert(pool.pat_ok(pool.nodes[id.0 as int]));
    match pool.node(id) {
        Pat::After(a, _) | Pat::OneOrMore(a, _) => {
            lemma_settled_closed(pool, a, f);
        },
        Pat::Group(a, b, _) | Pat::Interleave(a, b, _) => {
            lemma_settled_closed(pool, a, f);
            lemma_settled_closed(pool, b, f);
        },
        Pat::Choice(a, b, n) => {
            lemma_settled_closed(pool, a, f);
            lemma_settled_closed(pool, b, f);
            lemma_choice_again(pool, id, a, b, n, f);
        },
        _ => {},
    }
}

/// `after` of a settled pattern gives a settled pattern.
pub proof fn lemma_after_settles(pool: Pool, a: PatId, b: PatId, depth: nat)
    requires
        pool.wf(),
        pool.has(b),
        pool.settled(a, depth),
        pool.after(a, b).result is Ok,
        pool.after(a, b).pool.nodes.len() <= MAX_PATTERNS,
    ensures
        pool.after(a, b).pool.settled(pool.after(a, b).result.unwrap(), depth + 1),
{
    let step = pool.after(a, b);
    lemma_after_steady(pool, a, b);
    lemma_intern_steady(pool, Pat::NotAllowed);
    lemma_intern_steady(pool, Pat::After(a, b));
    lemma_settled_later(pool, step.pool, a, depth);
    assert(step.pool.node(a) == pool.node(a) && step.pool.node(b) == pool.node(b));
}

/// `group` of settled patterns gives a settled pattern.
pub proof fn lemma_group_settles(pool: Pool, a: PatId, b: PatId, depth: nat)
    requires
        pool.wf(),
        pool.settled(a, depth),
        pool.settled(b, depth),
        pool.group(a, b).result is Ok,
        pool.group(a, b).pool.nodes.len() <= MAX_PATTERNS,
    ensures
        pool.group(a, b).pool.settled(pool.group(a, b).result.unwrap(), depth + 1),
{
    let step = pool.group(a, b);
    lemma_group_steady(pool, a, b);
    lemma_intern_steady(pool, Pat::NotAllowed);
    lemma_intern_steady(pool, Pat::Group(a, b, pool.is_nullable(a) && pool.is_nullable(b)));
    lemma_settled_later(pool, step.pool, a, depth);
    lemma_settled_later(pool, step.pool, b, depth);
    lemma_settled_more(step.pool, a, depth, depth + 1);
    lemma_settled_more(step.pool, b, depth, depth + 1);
    assert(step.pool.node(a) == pool.node(a) && step.pool.node(b) == pool.node(b));
}

/// `interleave` of settled patterns gives a settled pattern.
pub proof fn lemma_interleave_settles(pool: Pool, a: PatId, b: PatId, depth: nat)
    requires
        pool.wf(),
        pool.settled(a, depth),
        pool.settled(b, depth),
        pool.interleave(a, b).result is Ok,
        pool.interleave(a, b).pool.nodes.len() <= MAX_PATTERNS,
    ensures
        pool.interleave(a, b).pool.settled(pool.interleave(a, b).result.unwrap(), depth + 1),
{
    let step = pool.interleave(a, b);
    lemma_interleave_steady(pool, a, b);
    lemma_intern_steady(pool, Pat::NotAllowed);
    lemma_intern_steady(pool, Pat::Interleave(a, b, pool.is_nullable(a) && pool.is_nullable(b)));
    lemma_settled_later(pool, step.pool, a, depth);
    lemma_settled_later(pool, step.pool, b, depth);
    lemma_settled_more(step.pool, a, depth, depth + 1);
    lemma_settled_more(step.pool, b, depth, depth + 1);
    assert(step.pool.node(a) == pool.node(a) && step.pool.node(b) == pool.node(b));
}

/// `one_or_more` of a settled pattern gives a settled pattern.
pub proof fn lemma_one_or_more_settles(pool: Pool, a: PatId, depth: nat)
    requires
        pool.wf(),
        pool.settled(a, depth),
        pool.one_or_more(a).result is Ok,
        pool.one_or_more(a).pool.nodes.len() <= MAX_PATTERNS,
    ensures
        pool.one_or_more(a).pool.settled(pool.one_or_more(a).result.unwrap(), depth + 1),
{
    let step = pool.one_or_more(a);
    lemma_one_or_more_steady(pool, a);
    lemma_intern_steady(pool, Pat::OneOrMore(a, pool.is_nullable(a)));
    lemma_settled_later(pool, step.pool, a, depth);
    assert(step.pool.node(a) == pool.node(a));
}

/// `choice` of settled patterns gives a settled pattern.
pub proof fn lemma_choice_settles(pool: Pool, a: PatId, b: PatId, depth: nat)
    requires
        pool.wf(),
        pool.settled(a, depth),
        pool.settled(b, depth),
        pool.choice(a, b).result is Ok,
        pool.choice(a, b).pool.nodes.len() <= MAX_PATTERNS,
    ensures
        pool.choice(a, b).pool.settled(pool.choice(a, b).result.unwrap(), depth + 1),
{
    let step = pool.choice(a, b);
    lemma_choice_steady(pool, a, b);
    lemma_settled_later(pool, step.pool, a, depth);
    lemma_settled_later(pool, step.pool, b, depth);
    lemma_settled_more(step.pool, a, depth, depth + 1);
    lemma_settled_more(step.pool, b, depth, depth + 1);
    if !(pool.node(a) is NotAllowed) && !(pool.node(b) is NotAllowed) && a != b {
        let fuel = pool.nodes.len() + 1;
        let leaves = pool.choice_leaves(a, fuel).unwrap();
        lemma_leaves_are_leaves(pool, a, fuel);
        lemma_filter_steady(pool, b, leaves, fuel);
        let filtered = pool.filter_choice(b, leaves, fuel);
        if let Ok(Some(kept)) = filtered.result {
            let made = Pat::Choice(
                a,
                kept,
                filtered.pool.is_nullable(a) || filtered.pool.is_nullable(kept),
            );
            lemma_intern_steady(filtered.pool, made);
            lemma_filter_settled(pool, b, leaves, fuel, depth);
            lemma_settled_later(filtered.pool, step.pool, kept, depth);
            lemma_leaves_stable(pool, step.pool, a, fuel, step.pool.nodes.len() + 1);
            lemma_leaves_stable(filtered.pool, step.pool, kept, fuel, step.pool.nodes.len() + 1);
            assert(step.pool.node(a) == pool.node(a));
            assert(step.pool.node(kept) == filtered.pool.node(kept));
            assert(step.pool.apart(step.result.unwrap(), a, kept, made->Choice_2));
        }
    }
}

/// What the end of a start tag gives is settled.
pub proof fn lemma_close_settles(pool: Pool, id: PatId, fuel: nat)
    requires
        pool.wf(),
        pool.has(id),
        pool.close_deriv(id, fuel).result is Ok,
        pool.close_deriv(id, fuel).pool.nodes.len() <= MAX_PATTERNS,
    ensures
        pool.close_deriv(id, fuel).pool.settled(pool.close_deriv(id, fuel).result.unwrap(), fuel),
    decreases fuel,
{
    let f = (fuel - 1) as nat;
    assert(pool.pat_ok(pool.nodes[id.0 as int]));
    match pool.node(id) {
        Pat::After(pa, pb) => {
            lemma_close_steady(pool, pa, f);
            let first = pool.close_deriv(pa, f);
            let a = first.result.unwrap();
            lemma_after_steady(first.pool, a, pb);
            lemma_close_settles(pool, pa, f);
            lemma_after_settles(first.pool, a, pb, f);
        },
        Pat::Choice(pa, pb, _) | Pat::Group(pa, pb, _) | Pat::Interleave(pa, pb, _) => {
            lemma_close_steady(pool, pa, f);
            let first = pool.close_deriv(pa, f);
            let a = first.result.unwrap();
            lemma_close_steady(first.pool, pb, f);
            let second = first.pool.close_deriv(pb, f);
            let b = second.result.unwrap();
            lemma_choice_steady(second.pool, a, b);
            lemma_group_steady(second.pool, a, b);
            lemma_interleave_steady(second.pool, a, b);
            lemma_close_settles(pool, pa, f);
            lemma_close_settles(first.pool, pb, f);
            lemma_settled_later(first.pool, second.pool, a, f);
            match pool.node(id) {
                Pat::Choice(_, _, _) => lemma_choice_settles(second.pool, a, b, f),
                Pat::Group(_, _, _) => lemma_group_settles(second.pool, a, b, f),
                _ => lemma_interleave_settles(second.pool, a, b, f),
            }
        },
        Pat::OneOrMore(p, _) => {
            lemma_close_steady(pool, p, f);
            let inner = pool.close_deriv(p, f);
            let q = inner.result.unwrap();
            lemma_one_or_more_steady(inner.pool, q);
            lemma_close_settles(pool, p, f);
            lemma_one_or_more_settles(inner.pool, q, f);
        },
        Pat::Attribute(_, _) => {
            lemma_intern_steady(pool, Pat::NotAllowed);
        },
        _ => {},
    }
}

} // verus!
