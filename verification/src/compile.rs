//! From the abstract form of a schema to patterns in the pool.

use vstd::prelude::*;
use crate::model::{Grammar, Pattern};
use crate::pool::{LimitError, Pat, PatId, Pool, Schema, Step};

verus! {

/// The ways of putting a list of patterns together.
#[derive(Clone, Copy, PartialEq, Eq, Structural, Debug)]
pub enum Joint {
    Choice,
    Interleave,
    Group,
}

/// Every datatype in the pattern is well formed.
pub open spec fn pattern_wf(p: Pattern) -> bool
    decreases p,
{
    match p {
        Pattern::Choice(v) => forall|i: int| 0 <= i < v@.len() ==> pattern_wf(#[trigger] v@[i]),
        Pattern::Interleave(v) => forall|i: int| 0 <= i < v@.len() ==> pattern_wf(#[trigger] v@[i]),
        Pattern::Group(v) => forall|i: int| 0 <= i < v@.len() ==> pattern_wf(#[trigger] v@[i]),
        Pattern::Mixed(p) => pattern_wf(*p),
        Pattern::Optional(p) => pattern_wf(*p),
        Pattern::ZeroOrMore(p) => pattern_wf(*p),
        Pattern::OneOrMore(p) => pattern_wf(*p),
        Pattern::List(p) => pattern_wf(*p),
        Pattern::Attribute(_, p) => pattern_wf(*p),
        Pattern::Element(_, p) => pattern_wf(*p),
        Pattern::DatatypeName { datatype, except } => datatype.wf() && match except {
            Some(e) => pattern_wf(*e),
            None => true,
        },
        _ => true,
    }
}

impl Grammar {
    /// Every datatype in the definitions is well formed.
    pub open spec fn wf(&self) -> bool {
        forall|i: int|
            0 <= i < self.rules@.len() ==> match #[trigger] self.rules@[i] {
                Some(rule) => pattern_wf(rule.pattern),
                None => true,
            }
    }
}

/// `left` and `right` put together.
pub open spec fn join(pool: Pool, joint: Joint, left: PatId, right: PatId) -> Step<PatId> {
    match joint {
        Joint::Choice => pool.choice(left, right),
        Joint::Interleave => pool.interleave(left, right),
        Joint::Group => pool.group(left, right),
    }
}

/// `Choice(p, Empty)`.
pub open spec fn optional(pool: Pool, p: PatId) -> Step<PatId> {
    let empty = pool.intern(Pat::Empty);
    match empty.result {
        Err(_) => empty,
        Ok(e) => empty.pool.choice(p, e),
    }
}

/// The pattern of `p` in the pool. A list of patterns is put together from
/// its end; a reference gives the placeholder of its definition, which is
/// compiled when it is first met and then put in the place of the
/// placeholder. References are followed `fuel` definitions deep.
pub open spec fn compiled(pool: Pool, g: Grammar, p: Pattern, fuel: nat) -> Step<PatId>
    decreases fuel, p, 2nat,
{
    match p {
        Pattern::Choice(v) => folded(pool, g, v@, 0, Joint::Choice, fuel),
        Pattern::Interleave(v) => folded(pool, g, v@, 0, Joint::Interleave, fuel),
        Pattern::Group(v) => folded(pool, g, v@, 0, Joint::Group, fuel),
        Pattern::Mixed(p) => {
            let inner = compiled(pool, g, *p, fuel);
            match inner.result {
                Err(_) => inner,
                Ok(id) => inner.pool.mixed(id),
            }
        },
        Pattern::Empty => pool.intern(Pat::Empty),
        Pattern::Text => pool.intern(Pat::Text),
        Pattern::NotAllowed => pool.intern(Pat::NotAllowed),
        Pattern::Optional(p) => {
            let inner = compiled(pool, g, *p, fuel);
            match inner.result {
                Err(_) => inner,
                Ok(id) => optional(inner.pool, id),
            }
        },
        Pattern::ZeroOrMore(p) => {
            let inner = compiled(pool, g, *p, fuel);
            match inner.result {
                Err(_) => inner,
                Ok(id) => {
                    let more = inner.pool.one_or_more(id);
                    match more.result {
                        Err(_) => more,
                        Ok(m) => optional(more.pool, m),
                    }
                },
            }
        },
        Pattern::OneOrMore(p) => {
            let inner = compiled(pool, g, *p, fuel);
            match inner.result {
                Err(_) => inner,
                Ok(id) => inner.pool.one_or_more(id),
            }
        },
        Pattern::Attribute(name, p) => {
            let inner = compiled(pool, g, *p, fuel);
            match inner.result {
                Err(_) => inner,
                Ok(id) => inner.pool.named(false, name@, id),
            }
        },
        Pattern::Element(name, p) => {
            let inner = compiled(pool, g, *p, fuel);
            match inner.result {
                Err(_) => inner,
                Ok(id) => inner.pool.named(true, name@, id),
            }
        },
        Pattern::Ref(_, _, key) => {
            if pool.refs.contains_key(key) {
                Step { pool, result: Ok(pool.refs[key]) }
            } else {
                let holder = pool.placeholder(key);
                match (holder.result, g.rule(key)) {
                    (Err(_), _) => holder,
                    (Ok(_), None) => Step { pool: holder.pool, result: Err(LimitError::Unresolved) },
                    (Ok(place), Some(body)) => if fuel == 0 {
                        Step { pool: holder.pool, result: Err(LimitError::TooDeep) }
                    } else {
                        let target = compiled(holder.pool, g, body, (fuel - 1) as nat);
                        match target.result {
                            Err(_) => target,
                            Ok(id) => if can_resolve(target.pool, place, id) {
                                Step { pool: target.pool.resolved(place, id), result: Ok(place) }
                            } else {
                                Step { pool: target.pool, result: Err(LimitError::Unresolved) }
                            },
                        }
                    },
                }
            }
        },
        Pattern::DatatypeValue { datatype } => pool.datatype_valued(datatype),
        Pattern::DatatypeName { datatype, except } => match except {
            None => pool.datatype_named(datatype, None),
            Some(e) => {
                let inner = compiled(pool, g, *e, fuel);
                match inner.result {
                    Err(_) => inner,
                    Ok(id) => inner.pool.datatype_named(datatype, Some(id)),
                }
            },
        },
        Pattern::List(p) => {
            let inner = compiled(pool, g, *p, fuel);
            match inner.result {
                Err(_) => inner,
                Ok(id) => inner.pool.intern(Pat::List(id)),
            }
        },
    }
}

/// A placeholder can take the pattern of `target` where it still is a
/// placeholder and `target` is none, or where the two are one.
pub open spec fn can_resolve(pool: Pool, place: PatId, target: PatId) -> bool {
    place == target || (pool.node(place) is Placeholder && !(pool.node(target) is Placeholder))
}

/// The patterns `items[i..]` put together from the end. No pattern at all
/// gives what changes nothing when it is joined: `NotAllowed` in a choice,
/// `Empty` in a group or an interleave.
pub open spec fn folded(
    pool: Pool,
    g: Grammar,
    items: Seq<Pattern>,
    i: int,
    joint: Joint,
    fuel: nat,
) -> Step<PatId>
    decreases fuel, items, items.len() - i,
{
    if i < 0 || i >= items.len() {
        match joint {
            Joint::Choice => pool.intern(Pat::NotAllowed),
            _ => pool.intern(Pat::Empty),
        }
    } else if i == items.len() - 1 {
        compiled(pool, g, items[i], fuel)
    } else {
        let right = folded(pool, g, items, i + 1, joint, fuel);
        match right.result {
            Err(_) => right,
            Ok(r) => {
                let left = compiled(right.pool, g, items[i], fuel);
                match left.result {
                    Err(_) => left,
                    Ok(l) => join(left.pool, joint, l, r),
                }
            },
        }
    }
}

impl<'a> Schema<'a> {
    fn join(&mut self, joint: Joint, left: PatId, right: PatId) -> (r: Result<PatId, LimitError>)
        requires
            old(self).wf(),
            old(self)@.has(left),
            old(self)@.has(right),
        ensures
            (Step { pool: final(self)@, result: r }) == join(old(self)@, joint, left, right),
            old(self)@.sound(join(old(self)@, joint, left, right)),
    {
        match joint {
            Joint::Choice => self.choice(left, right),
            Joint::Interleave => self.interleave(left, right),
            Joint::Group => self.group(left, right),
        }
    }

    fn optional(&mut self, p: PatId) -> (r: Result<PatId, LimitError>)
        requires
            old(self).wf(),
            old(self)@.has(p),
        ensures
            (Step { pool: final(self)@, result: r }) == optional(old(self)@, p),
            old(self)@.sound(optional(old(self)@, p)),
    {
        let empty = self.empty()?;
        self.choice(p, empty)
    }

    /// The patterns `items` put together from the end.
    fn fold(&mut self, g: &'a Grammar, items: &'a Vec<Pattern>, joint: Joint, fuel: usize) -> (r:
        Result<PatId, LimitError>)
        requires
            old(self).wf(),
            g.wf(),
            forall|i: int| 0 <= i < items@.len() ==> pattern_wf(#[trigger] items@[i]),
        ensures
            (Step { pool: final(self)@, result: r }) == folded(
                old(self)@,
                *g,
                items@,
                0,
                joint,
                fuel as nat,
            ),
            old(self)@.held(folded(old(self)@, *g, items@, 0, joint, fuel as nat)),
        decreases fuel, items@, 1nat,
    {
        let n = items.len();
        if n == 0 {
            return match joint {
                Joint::Choice => self.not_allowed(),
                _ => self.empty(),
            };
        }
        let mut i: usize = n - 1;
        let mut right = match self.compile(g, &items[i], fuel) {
            Ok(id) => id,
            Err(e) => {
                proof {
                    lemma_folded_err(old(self)@, *g, items@, i as int, joint, fuel as nat);
                }
                return Err(e);
            },
        };
        while i > 0
            invariant
                i < n,
                n == items@.len(),
                self.wf(),
                g.wf(),
                forall|k: int| 0 <= k < items@.len() ==> pattern_wf(#[trigger] items@[k]),
                old(self)@.nodes.len() <= self@.nodes.len(),
                self@.has(right),
                (Step { pool: self@, result: Ok::<PatId, LimitError>(right) }) == folded(
                    old(self)@,
                    *g,
                    items@,
                    i as int,
                    joint,
                    fuel as nat,
                ),
            decreases i,
        {
            let step = self.compile(g, &items[i - 1], fuel);
            let left = match step {
                Ok(id) => id,
                Err(e) => {
                    proof {
                        lemma_folded_err(old(self)@, *g, items@, i - 1, joint, fuel as nat);
                    }
                    return Err(e);
                },
            };
            right = match self.join(joint, left, right) {
                Ok(id) => id,
                Err(e) => {
                    proof {
                        lemma_folded_err(old(self)@, *g, items@, i - 1, joint, fuel as nat);
                    }
                    return Err(e);
                },
            };
            i -= 1;
        }
        Ok(right)
    }

    /// The pattern of a reference: the placeholder of its definition, which
    /// is compiled when it is first met.
    fn compile_ref(&mut self, g: &'a Grammar, p: &'a Pattern, fuel: usize) -> (r: Result<
        PatId,
        LimitError,
    >)
        requires
            old(self).wf(),
            g.wf(),
            *p is Ref,
        ensures
            (Step { pool: final(self)@, result: r }) == compiled(old(self)@, *g, *p, fuel as nat),
            old(self)@.held(compiled(old(self)@, *g, *p, fuel as nat)),
        decreases fuel, *p, 1nat,
    {
        match p {
            Pattern::Ref(_whence, name, key) => {
                if let Some(id) = self.get_ref(*key) {
                    return Ok(id);
                }
                let placeholder_id = self.ref_placeholder(*key, name.as_str())?;
                let ghost held = self@;
                match g.lookup(*key) {
                    Some(thing) => {
                        if fuel == 0 {
                            return Err(LimitError::TooDeep);
                        }
                        assert(pattern_wf(*thing)) by {
                            assert(g.rules@[*key as int] is Some);
                        }
                        let id = self.compile(g, thing, fuel - 1)?;
                        if placeholder_id.0 == id.0 || (matches!(
                            self.patt(placeholder_id),
                            Pat::Placeholder(_)
                        ) && !matches!(self.patt(id), Pat::Placeholder(_))) {
                            self.resolve_ref(placeholder_id, id, name.as_str());
                            Ok(placeholder_id)
                        } else {
                            Err(LimitError::Unresolved)
                        }
                    },
                    None => Err(LimitError::Unresolved),
                }
            },
            _ => Err(LimitError::Unresolved),
        }
    }

    /// The pattern of a pattern that is repeated or optional.
    #[verifier::rlimit(50)]
    fn compile_repeat(&mut self, g: &'a Grammar, p: &'a Pattern, fuel: usize) -> (r: Result<
        PatId,
        LimitError,
    >)
        requires
            old(self).wf(),
            g.wf(),
            pattern_wf(*p),
            *p is Mixed || *p is Optional || *p is ZeroOrMore || *p is OneOrMore || *p is List,
        ensures
            (Step { pool: final(self)@, result: r }) == compiled(old(self)@, *g, *p, fuel as nat),
            old(self)@.held(compiled(old(self)@, *g, *p, fuel as nat)),
        decreases fuel, *p, 1nat,
    {
        match p {
            Pattern::Mixed(p) => {
                let inner = self.compile(g, p, fuel)?;
                self.mixed(inner)
            },
            Pattern::Optional(p) => {
                let inner = self.compile(g, p, fuel)?;
                self.optional(inner)
            },
            Pattern::ZeroOrMore(p) => {
                let inner = self.compile(g, p, fuel)?;
                let more = self.one_or_more(inner)?;
                self.optional(more)
            },
            Pattern::OneOrMore(p) => {
                let inner = self.compile(g, p, fuel)?;
                self.one_or_more(inner)
            },
            Pattern::List(p) => {
                let inner = self.compile(g, p, fuel)?;
                self.list(inner)
            },
            _ => self.not_allowed(),
        }
    }

    /// The pattern of an attribute, an element, a datatype or a value.
    #[verifier::rlimit(50)]
    fn compile_named(&mut self, g: &'a Grammar, p: &'a Pattern, fuel: usize) -> (r: Result<
        PatId,
        LimitError,
    >)
        requires
            old(self).wf(),
            g.wf(),
            pattern_wf(*p),
            *p is Attribute || *p is Element || *p is DatatypeValue || *p is DatatypeName,
        ensures
            (Step { pool: final(self)@, result: r }) == compiled(old(self)@, *g, *p, fuel as nat),
            old(self)@.held(compiled(old(self)@, *g, *p, fuel as nat)),
        decreases fuel, *p, 1nat,
    {
        match p {
            Pattern::Attribute(name, p) => {
                let inner = self.compile(g, p, fuel)?;
                self.attribute(name, inner)
            },
            Pattern::Element(name, p) => {
                let inner = self.compile(g, p, fuel)?;
                self.element(name, inner)
            },
            Pattern::DatatypeValue { datatype } => self.datatype_value(datatype),
            Pattern::DatatypeName { datatype, except } => match except {
                None => self.datatype_name(datatype, None),
                Some(e) => {
                    let inner = self.compile(g, e, fuel)?;
                    self.datatype_name(datatype, Some(inner))
                },
            },
            _ => self.not_allowed(),
        }
    }

    /// The pattern of `p` in the pool.
    pub fn compile(&mut self, g: &'a Grammar, p: &'a Pattern, fuel: usize) -> (r: Result<
        PatId,
        LimitError,
    >)
        requires
            old(self).wf(),
            g.wf(),
            pattern_wf(*p),
        ensures
            (Step { pool: final(self)@, result: r }) == compiled(old(self)@, *g, *p, fuel as nat),
            old(self)@.held(compiled(old(self)@, *g, *p, fuel as nat)),
        decreases fuel, *p, 2nat,
    {
        match p {
            Pattern::Choice(v) => {
                assert(decreases_to!(*p => p->Choice_0));
                assert(decreases_to!(*v => v@));
                assert(forall|i: int| 0 <= i < v@.len() ==> pattern_wf(#[trigger] v@[i]));
                self.fold(g, v, Joint::Choice, fuel)
            },
            Pattern::Interleave(v) => {
                assert(decreases_to!(*p => p->Interleave_0));
                assert(decreases_to!(*v => v@));
                assert(forall|i: int| 0 <= i < v@.len() ==> pattern_wf(#[trigger] v@[i]));
                self.fold(g, v, Joint::Interleave, fuel)
            },
            Pattern::Group(v) => {
                assert(decreases_to!(*p => p->Group_0));
                assert(decreases_to!(*v => v@));
                assert(forall|i: int| 0 <= i < v@.len() ==> pattern_wf(#[trigger] v@[i]));
                self.fold(g, v, Joint::Group, fuel)
            },
            Pattern::Ref(_, _, _) => self.compile_ref(g, p, fuel),
            Pattern::Empty => self.empty(),
            Pattern::Text => self.text(),
            Pattern::NotAllowed => self.not_allowed(),
            Pattern::Mixed(_)
            | Pattern::Optional(_)
            | Pattern::ZeroOrMore(_)
            | Pattern::OneOrMore(_)
            | Pattern::List(_) => self.compile_repeat(g, p, fuel),
            _ => self.compile_named(g, p, fuel),
        }
    }
}

/// A limit that the patterns `items[i..]` ran into is the result for every
/// longer part of the list.
pub proof fn lemma_folded_err(
    pool: Pool,
    g: Grammar,
    items: Seq<Pattern>,
    i: int,
    joint: Joint,
    fuel: nat,
)
    requires
        0 <= i < items.len(),
        folded(pool, g, items, i, joint, fuel).result is Err,
    ensures
        folded(pool, g, items, 0, joint, fuel) == folded(pool, g, items, i, joint, fuel),
    decreases i,
{
    if i > 0 {
        assert(folded(pool, g, items, i - 1, joint, fuel) == folded(pool, g, items, i, joint, fuel));
        lemma_folded_err(pool, g, items, i - 1, joint, fuel);
    }
}

} // verus!
