//! The derivatives of a pattern with respect to an attribute, a start tag
//! and an end tag.

use vstd::prelude::*;
use std::collections::HashMap;
use crate::deriv_text::{
    binding_of, deriv_ok, empty_if, lift, memo_ok, repeat_or_empty, Deriv,
};
use crate::model::{contains, in_name_set, QualifiedName};
use crate::pool::{LimitError, Pat, PatId, Pool, Schema, Step};
use crate::qname::Namespaces;
use crate::span::Span;
use crate::text::{all_space, is_whitespace_str};

verus! {

/// An attribute with its name resolved.
#[derive(Debug)]
pub struct Attr {
    pub name: QualifiedName,
    pub value: String,
    pub span: Span,
}

/// What is done to the pattern that is owed after an end tag, when the
/// pattern around it is put back.
#[derive(PartialEq, Eq, Structural, Copy, Clone, Debug)]
pub enum Cont {
    /// `Group(pat, Choice(OneOrMore(p), Empty))`.
    Repeat(PatId),
    /// `Interleave(pat, p)`.
    InterleaveWith(PatId),
    /// `Interleave(p, pat)`.
    InterleaveAfter(PatId),
    /// `Group(pat, p)`.
    GroupWith(PatId),
    /// `After(pat, p)`.
    AfterWith(PatId),
}

impl Cont {
    pub open spec fn part(self) -> PatId {
        match self {
            Cont::Repeat(p) => p,
            Cont::InterleaveWith(p) => p,
            Cont::InterleaveAfter(p) => p,
            Cont::GroupWith(p) => p,
            Cont::AfterWith(p) => p,
        }
    }
}

/// The pattern `pat` put back into what stood around it.
pub open spec fn apply_cont(pool: Pool, cont: Cont, pat: PatId) -> Step<PatId> {
    match cont {
        Cont::Repeat(p) => {
            let rest = repeat_or_empty(pool, p);
            match rest.result {
                Err(_) => rest,
                Ok(r) => rest.pool.group(pat, r),
            }
        },
        Cont::InterleaveWith(p) => pool.interleave(pat, p),
        Cont::InterleaveAfter(p) => pool.interleave(p, pat),
        Cont::GroupWith(p) => pool.group(pat, p),
        Cont::AfterWith(p) => pool.after(pat, p),
    }
}

/// An attribute or a start tag: the namespace and the local part of its
/// name, and for an attribute its value.
pub struct Event {
    pub ns: Option<Seq<char>>,
    pub local: Seq<char>,
    pub value: Seq<char>,
}

impl Attr {
    pub open spec fn event(&self) -> Event {
        Event { ns: self.name.ns(), local: self.name.local_name@, value: self.value@ }
    }
}

impl QualifiedName {
    pub open spec fn event(&self) -> Event {
        Event { ns: self.ns(), local: self.local_name@, value: Seq::empty() }
    }
}

impl Pool {
    /// Whether the value of an attribute matches the content `content`: a
    /// value of white space matches nullable content, and any value matches
    /// where the derivative of the content with respect to it is nullable.
    pub open spec fn value_match(
        self,
        content: PatId,
        value: Seq<char>,
        binding: spec_fn(Seq<char>) -> Option<Seq<char>>,
        f: nat,
    ) -> Step<bool> {
        let pat = self.node(content);
        if pat.nullable() && all_space(value) {
            Step { pool: self, result: Ok(true) }
        } else {
            let pushed = self.intern(pat);
            match pushed.result {
                Err(e) => Step { pool: pushed.pool, result: Err(e) },
                Ok(id) => {
                    let d = pushed.pool.text_deriv(Map::empty(), id, value, binding, f);
                    match d.result {
                        Err(e) => Step { pool: d.pool, result: Err(e) },
                        Ok(r) => Step { pool: d.pool, result: Ok(d.pool.is_nullable(r)) },
                    }
                },
            }
        }
    }

    /// The derivative of pattern `id` with respect to the attribute `att`.
    pub open spec fn att_deriv(
        self,
        memo: Map<u32, PatId>,
        id: PatId,
        att: Event,
        binding: spec_fn(Seq<char>) -> Option<Seq<char>>,
        fuel: nat,
    ) -> Deriv
        decreases fuel, 0nat,
    {
        if memo.contains_key(id.0) {
            Deriv { pool: self, memo, result: Ok(memo[id.0]) }
        } else if fuel == 0 {
            Deriv { pool: self, memo, result: Err(LimitError::TooDeep) }
        } else {
            let done = self.att_step(memo, id, att, binding, (fuel - 1) as nat);
            if done.result is Err {
                done
            } else {
                Deriv { memo: done.memo.insert(id.0, done.id()), ..done }
            }
        }
    }

    /// The derivative with respect to an attribute by the shape of the
    /// pattern.
    pub open spec fn att_step(
        self,
        memo: Map<u32, PatId>,
        id: PatId,
        att: Event,
        binding: spec_fn(Seq<char>) -> Option<Seq<char>>,
        f: nat,
    ) -> Deriv
        decreases f, 3nat,
    {
        match self.node(id) {
            Pat::After(pa, pb) => self.att_after(memo, pa, pb, att, binding, f),
            Pat::Choice(pa, pb, _) => self.att_choice(memo, pa, pb, att, binding, f),
            Pat::Group(pa, pb, _) => self.att_pair(memo, true, pa, pb, att, binding, f),
            Pat::Interleave(pa, pb, _) => self.att_pair(memo, false, pa, pb, att, binding, f),
            Pat::OneOrMore(p, _) => self.att_repeat(memo, id, p, att, binding, f),
            Pat::Attribute(nc, p) => {
                if in_name_set(self.names[nc as int], att.ns, att.local) {
                    let matched = self.value_match(p, att.value, binding, f);
                    match matched.result {
                        Err(e) => Deriv { pool: matched.pool, memo, result: Err(e) },
                        Ok(m) => lift(empty_if(matched.pool, m), memo),
                    }
                } else {
                    lift(self.intern(Pat::NotAllowed), memo)
                }
            },
            _ => lift(self.intern(Pat::NotAllowed), memo),
        }
    }

    /// `After(D(pa), pb)`.
    pub open spec fn att_after(
        self,
        memo: Map<u32, PatId>,
        pa: PatId,
        pb: PatId,
        att: Event,
        binding: spec_fn(Seq<char>) -> Option<Seq<char>>,
        f: nat,
    ) -> Deriv
        decreases f, 2nat,
    {
        let d = self.att_deriv(memo, pa, att, binding, f);
        if d.result is Err {
            d
        } else {
            lift(d.pool.after(d.id(), pb), d.memo)
        }
    }

    /// `Choice(D(pa), D(pb))`.
    pub open spec fn att_choice(
        self,
        memo: Map<u32, PatId>,
        pa: PatId,
        pb: PatId,
        att: Event,
        binding: spec_fn(Seq<char>) -> Option<Seq<char>>,
        f: nat,
    ) -> Deriv
        decreases f, 2nat,
    {
        let a = self.att_deriv(memo, pa, att, binding, f);
        if a.result is Err {
            a
        } else {
            let b = a.pool.att_deriv(a.memo, pb, att, binding, f);
            if b.result is Err {
                b
            } else {
                lift(b.pool.choice(a.id(), b.id()), b.memo)
            }
        }
    }

    /// `Choice(Group(D(pa), pb), Group(pa, D(pb)))`, or the same with
    /// `Interleave` where `group` does not hold.
    pub open spec fn att_pair(
        self,
        memo: Map<u32, PatId>,
        group: bool,
        pa: PatId,
        pb: PatId,
        att: Event,
        binding: spec_fn(Seq<char>) -> Option<Seq<char>>,
        f: nat,
    ) -> Deriv
        decreases f, 2nat,
    {
        let d1 = self.att_deriv(memo, pa, att, binding, f);
        if d1.result is Err {
            d1
        } else {
            let a = if group {
                d1.pool.group(d1.id(), pb)
            } else {
                d1.pool.interleave(d1.id(), pb)
            };
            if a.result is Err {
                lift(a, d1.memo)
            } else {
                let d2 = a.pool.att_deriv(d1.memo, pb, att, binding, f);
                if d2.result is Err {
                    d2
                } else {
                    let b = if group {
                        d2.pool.group(pa, d2.id())
                    } else {
                        d2.pool.interleave(pa, d2.id())
                    };
                    if b.result is Err {
                        lift(b, d2.memo)
                    } else {
                        lift(b.pool.choice(a.result->Ok_0, b.result->Ok_0), d2.memo)
                    }
                }
            }
        }
    }

    /// `Group(D(p), Choice(id, Empty))`, where `id` is `OneOrMore(p)`.
    pub open spec fn att_repeat(
        self,
        memo: Map<u32, PatId>,
        id: PatId,
        p: PatId,
        att: Event,
        binding: spec_fn(Seq<char>) -> Option<Seq<char>>,
        f: nat,
    ) -> Deriv
        decreases f, 2nat,
    {
        let s1 = self.att_deriv(memo, p, att, binding, f);
        if s1.result is Err {
            s1
        } else {
            let empty = s1.pool.intern(Pat::Empty);
            if empty.result is Err {
                lift(empty, s1.memo)
            } else {
                let s2 = empty.pool.choice(id, empty.result->Ok_0);
                if s2.result is Err {
                    lift(s2, s1.memo)
                } else {
                    lift(s2.pool.group(s1.id(), s2.result->Ok_0), s1.memo)
                }
            }
        }
    }

    /// The pattern `id`, which came from a start tag, with the pattern owed
    /// after each end tag rewritten by `cont`. Only `After`, choices of such
    /// and `NotAllowed` can come from a start tag.
    pub open spec fn apply_after(self, id: PatId, cont: Cont, fuel: nat) -> Step<PatId>
        decreases fuel,
    {
        if fuel == 0 {
            Step { pool: self, result: Err(LimitError::TooDeep) }
        } else {
            match self.node(id) {
                Pat::After(pa, pb) => {
                    let rest = apply_cont(self, cont, pb);
                    match rest.result {
                        Err(_) => rest,
                        Ok(r) => rest.pool.after(pa, r),
                    }
                },
                Pat::Choice(pa, pb, _) => {
                    let c1 = self.apply_after(pa, cont, (fuel - 1) as nat);
                    match c1.result {
                        Err(_) => c1,
                        Ok(a) => {
                            let c2 = c1.pool.apply_after(pb, cont, (fuel - 1) as nat);
                            match c2.result {
                                Err(_) => c2,
                                Ok(b) => c2.pool.choice(a, b),
                            }
                        },
                    }
                },
                Pat::NotAllowed => self.intern(Pat::NotAllowed),
                _ => Step { pool: self, result: Err(LimitError::NotAfter) },
            }
        }
    }

    /// The derivative of pattern `id` with respect to the start tag of an
    /// element named `name`.
    pub open spec fn open_deriv(self, memo: Map<u32, PatId>, id: PatId, name: Event, fuel: nat) -> Deriv
        decreases fuel, 0nat,
    {
        if memo.contains_key(id.0) {
            Deriv { pool: self, memo, result: Ok(memo[id.0]) }
        } else if fuel == 0 {
            Deriv { pool: self, memo, result: Err(LimitError::TooDeep) }
        } else {
            let done = self.open_step(memo, id, name, (fuel - 1) as nat);
            if done.result is Err {
                done
            } else {
                Deriv { memo: done.memo.insert(id.0, done.id()), ..done }
            }
        }
    }

    /// The derivative with respect to a start tag by the shape of the
    /// pattern.
    pub open spec fn open_step(self, memo: Map<u32, PatId>, id: PatId, name: Event, f: nat) -> Deriv
        decreases f, 3nat,
    {
        match self.node(id) {
            Pat::Choice(l, r, _) => self.open_choice(memo, l, r, name, f),
            Pat::OneOrMore(p, _) => self.open_inner(memo, p, Cont::Repeat(p), name, f),
            Pat::Interleave(pa, pb, _) => self.open_interleave(memo, pa, pb, name, f),
            Pat::Group(pa, pb, _) => self.open_group(memo, pa, pb, name, f),
            Pat::Element(nc, content) => {
                if in_name_set(self.names[nc as int], name.ns, name.local) {
                    let empty = self.intern(Pat::Empty);
                    match empty.result {
                        Err(_) => lift(empty, memo),
                        Ok(e) => lift(empty.pool.after(content, e), memo),
                    }
                } else {
                    lift(self.intern(Pat::NotAllowed), memo)
                }
            },
            Pat::After(pa, pb) => self.open_inner(memo, pa, Cont::AfterWith(pb), name, f),
            Pat::Placeholder(_) => Deriv { pool: self, memo, result: Err(LimitError::Unresolved) },
            _ => lift(self.intern(Pat::NotAllowed), memo),
        }
    }

    /// `Choice(D(l), D(r))`.
    pub open spec fn open_choice(
        self,
        memo: Map<u32, PatId>,
        l: PatId,
        r: PatId,
        name: Event,
        f: nat,
    ) -> Deriv
        decreases f, 2nat,
    {
        let d1 = self.open_deriv(memo, l, name, f);
        if d1.result is Err {
            d1
        } else {
            let d2 = d1.pool.open_deriv(d1.memo, r, name, f);
            if d2.result is Err {
                d2
            } else {
                lift(d2.pool.choice(d1.id(), d2.id()), d2.memo)
            }
        }
    }

    /// `D(p)` with what is owed after the end tag rewritten by `cont`.
    pub open spec fn open_inner(
        self,
        memo: Map<u32, PatId>,
        p: PatId,
        cont: Cont,
        name: Event,
        f: nat,
    ) -> Deriv
        decreases f, 1nat,
    {
        let d = self.open_deriv(memo, p, name, f);
        if d.result is Err {
            d
        } else {
            lift(d.pool.apply_after(d.id(), cont, d.pool.nodes.len() + 1), d.memo)
        }
    }

    /// The choice of `D(pa)` interleaved with `pb` and `pa` interleaved with
    /// `D(pb)`.
    pub open spec fn open_interleave(
        self,
        memo: Map<u32, PatId>,
        pa: PatId,
        pb: PatId,
        name: Event,
        f: nat,
    ) -> Deriv
        decreases f, 2nat,
    {
        let c1 = self.open_inner(memo, pa, Cont::InterleaveWith(pb), name, f);
        if c1.result is Err {
            c1
        } else {
            let c2 = c1.pool.open_inner(c1.memo, pb, Cont::InterleaveAfter(pa), name, f);
            if c2.result is Err {
                c2
            } else {
                lift(c2.pool.choice(c1.id(), c2.id()), c2.memo)
            }
        }
    }

    /// `D(pa)` followed by `pb`, and beside it `D(pb)` where `pa` is
    /// nullable.
    pub open spec fn open_group(
        self,
        memo: Map<u32, PatId>,
        pa: PatId,
        pb: PatId,
        name: Event,
        f: nat,
    ) -> Deriv
        decreases f, 2nat,
    {
        let nullable = self.is_nullable(pa);
        let x = self.open_inner(memo, pa, Cont::GroupWith(pb), name, f);
        if x.result is Err || !nullable {
            x
        } else {
            let d2 = x.pool.open_deriv(x.memo, pb, name, f);
            if d2.result is Err {
                d2
            } else {
                lift(d2.pool.choice(x.id(), d2.id()), d2.memo)
            }
        }
    }

    /// The derivative of pattern `id` with respect to the end of a start
    /// tag: an attribute that is still asked for gives `NotAllowed`.
    pub open spec fn close_deriv(self, id: PatId, fuel: nat) -> Step<PatId>
        decreases fuel,
    {
        if fuel == 0 {
            Step { pool: self, result: Err(LimitError::TooDeep) }
        } else {
            let f = (fuel - 1) as nat;
            match self.node(id) {
                Pat::After(pa, pb) => {
                    let a1 = self.close_deriv(pa, f);
                    match a1.result {
                        Err(_) => a1,
                        Ok(a) => a1.pool.after(a, pb),
                    }
                },
                Pat::Choice(pa, pb, _) | Pat::Group(pa, pb, _) | Pat::Interleave(pa, pb, _) => {
                    let c1 = self.close_deriv(pa, f);
                    match c1.result {
                        Err(_) => c1,
                        Ok(a) => {
                            let c2 = c1.pool.close_deriv(pb, f);
                            match c2.result {
                                Err(_) => c2,
                                Ok(b) => match self.node(id) {
                                    Pat::Choice(_, _, _) => c2.pool.choice(a, b),
                                    Pat::Group(_, _, _) => c2.pool.group(a, b),
                                    _ => c2.pool.interleave(a, b),
                                },
                            }
                        },
                    }
                },
                Pat::OneOrMore(p, _) => {
                    let inner = self.close_deriv(p, f);
                    match inner.result {
                        Err(_) => inner,
                        Ok(q) => inner.pool.one_or_more(q),
                    }
                },
                Pat::Attribute(_, _) => self.intern(Pat::NotAllowed),
                _ => Step { pool: self, result: Ok(id) },
            }
        }
    }

    /// The derivative of pattern `id` with respect to an end tag: what is
    /// owed after it where the content of the element is nullable.
    pub open spec fn end_deriv(self, id: PatId, fuel: nat) -> Step<PatId>
        decreases fuel,
    {
        if fuel == 0 {
            Step { pool: self, result: Err(LimitError::TooDeep) }
        } else {
            match self.node(id) {
                Pat::Choice(pa, pb, _) => {
                    let c1 = self.end_deriv(pa, (fuel - 1) as nat);
                    match c1.result {
                        Err(_) => c1,
                        Ok(a) => {
                            let c2 = c1.pool.end_deriv(pb, (fuel - 1) as nat);
                            match c2.result {
                                Err(_) => c2,
                                Ok(b) => c2.pool.choice(a, b),
                            }
                        },
                    }
                },
                Pat::After(pa, pb) => if self.is_nullable(pa) {
                    Step { pool: self, result: Ok(pb) }
                } else {
                    self.intern(Pat::NotAllowed)
                },
                _ => self.intern(Pat::NotAllowed),
            }
        }
    }
}

impl<'a> Schema<'a> {
    fn apply_cont(&mut self, cont: Cont, pat: PatId) -> (r: Result<PatId, LimitError>)
        requires
            old(self).wf(),
            old(self)@.has(pat),
            old(self)@.has(cont.part()),
        ensures
            (Step { pool: final(self)@, result: r }) == apply_cont(old(self)@, cont, pat),
            old(self)@.sound(apply_cont(old(self)@, cont, pat)),
    {
        match cont {
            Cont::Repeat(p) => {
                let rest = self.repeat_or_empty(p)?;
                self.group(pat, rest)
            },
            Cont::InterleaveWith(p) => self.interleave(pat, p),
            Cont::InterleaveAfter(p) => self.interleave(p, pat),
            Cont::GroupWith(p) => self.group(pat, p),
            Cont::AfterWith(p) => self.after(pat, p),
        }
    }

    /// Whether the value `val` of an attribute matches the content
    /// `content`.
    pub fn value_match<N: Namespaces>(&mut self, content: PatId, val: &str, ns: &N, fuel: usize) -> (r:
        Result<bool, LimitError>)
        requires
            old(self).wf(),
            old(self)@.has(content),
        ensures
            (Step { pool: final(self)@, result: r }) == old(self)@.value_match(
                content,
                val@,
                binding_of(ns),
                fuel as nat,
            ),
            final(self).wf(),
            final(self)@.extends(old(self)@),
    {
        assert(self@.pat_ok(self@.nodes[content.0 as int]));
        let pat = self.patt(content);
        if pat.is_nullable() && is_whitespace_str(val) {
            Ok(true)
        } else {
            let id = self.push(pat)?;
            let mut memo: HashMap<u32, PatId> = HashMap::new();
            assert(memo@ =~= Map::empty());
            let d = self.text_deriv_memo(&mut memo, id, val, ns, fuel)?;
            Ok(self.patt(d).is_nullable())
        }
    }

    fn att_after<N: Namespaces>(
        &mut self,
        memo: &mut HashMap<u32, PatId>,
        pa: PatId,
        pb: PatId,
        att: &Attr,
        ns: &N,
        fuel: usize,
    ) -> (r: Result<PatId, LimitError>)
        requires
            old(self).wf(),
            old(self)@.has(pa),
            old(self)@.has(pb),
            memo_ok(old(memo)@, old(self)@),
        ensures
            (Deriv { pool: final(self)@, memo: final(memo)@, result: r }) == old(self)@.att_after(
                old(memo)@,
                pa,
                pb,
                att.event(),
                binding_of(ns),
                fuel as nat,
            ),
            deriv_ok(old(self)@, Deriv { pool: final(self)@, memo: final(memo)@, result: r }),
        decreases fuel, 2nat,
    {
        let d = self.att_deriv(memo, pa, att, ns, fuel)?;
        self.after(d, pb)
    }

    fn att_choice<N: Namespaces>(
        &mut self,
        memo: &mut HashMap<u32, PatId>,
        pa: PatId,
        pb: PatId,
        att: &Attr,
        ns: &N,
        fuel: usize,
    ) -> (r: Result<PatId, LimitError>)
        requires
            old(self).wf(),
            old(self)@.has(pa),
            old(self)@.has(pb),
            memo_ok(old(memo)@, old(self)@),
        ensures
            (Deriv { pool: final(self)@, memo: final(memo)@, result: r }) == old(self)@.att_choice(
                old(memo)@,
                pa,
                pb,
                att.event(),
                binding_of(ns),
                fuel as nat,
            ),
            deriv_ok(old(self)@, Deriv { pool: final(self)@, memo: final(memo)@, result: r }),
        decreases fuel, 2nat,
    {
        let c1 = self.att_deriv(memo, pa, att, ns, fuel)?;
        let c2 = self.att_deriv(memo, pb, att, ns, fuel)?;
        self.choice(c1, c2)
    }

    fn att_pair<N: Namespaces>(
        &mut self,
        memo: &mut HashMap<u32, PatId>,
        group: bool,
        pa: PatId,
        pb: PatId,
        att: &Attr,
        ns: &N,
        fuel: usize,
    ) -> (r: Result<PatId, LimitError>)
        requires
            old(self).wf(),
            old(self)@.has(pa),
            old(self)@.has(pb),
            memo_ok(old(memo)@, old(self)@),
        ensures
            (Deriv { pool: final(self)@, memo: final(memo)@, result: r }) == old(self)@.att_pair(
                old(memo)@,
                group,
                pa,
                pb,
                att.event(),
                binding_of(ns),
                fuel as nat,
            ),
            deriv_ok(old(self)@, Deriv { pool: final(self)@, memo: final(memo)@, result: r }),
        decreases fuel, 2nat,
    {
        let d1 = self.att_deriv(memo, pa, att, ns, fuel)?;
        let s1 = if group {
            self.group(d1, pb)?
        } else {
            self.interleave(d1, pb)?
        };
        let d2 = self.att_deriv(memo, pb, att, ns, fuel)?;
        let s2 = if group {
            self.group(pa, d2)?
        } else {
            self.interleave(pa, d2)?
        };
        self.choice(s1, s2)
    }

    fn att_repeat<N: Namespaces>(
        &mut self,
        memo: &mut HashMap<u32, PatId>,
        id: PatId,
        p: PatId,
        att: &Attr,
        ns: &N,
        fuel: usize,
    ) -> (r: Result<PatId, LimitError>)
        requires
            old(self).wf(),
            old(self)@.has(id),
            old(self)@.has(p),
            memo_ok(old(memo)@, old(self)@),
        ensures
            (Deriv { pool: final(self)@, memo: final(memo)@, result: r }) == old(self)@.att_repeat(
                old(memo)@,
                id,
                p,
                att.event(),
                binding_of(ns),
                fuel as nat,
            ),
            deriv_ok(old(self)@, Deriv { pool: final(self)@, memo: final(memo)@, result: r }),
        decreases fuel, 2nat,
    {
        let s1 = self.att_deriv(memo, p, att, ns, fuel)?;
        let empty = self.empty()?;
        let s2 = self.choice(id, empty)?;
        self.group(s1, s2)
    }

    fn att_step<N: Namespaces>(
        &mut self,
        memo: &mut HashMap<u32, PatId>,
        id: PatId,
        att: &Attr,
        ns: &N,
        fuel: usize,
    ) -> (r: Result<PatId, LimitError>)
        requires
            old(self).wf(),
            old(self)@.has(id),
            memo_ok(old(memo)@, old(self)@),
        ensures
            (Deriv { pool: final(self)@, memo: final(memo)@, result: r }) == old(self)@.att_step(
                old(memo)@,
                id,
                att.event(),
                binding_of(ns),
                fuel as nat,
            ),
            deriv_ok(old(self)@, Deriv { pool: final(self)@, memo: final(memo)@, result: r }),
        decreases fuel, 3nat,
    {
        assert(self@.pat_ok(self@.nodes[id.0 as int]));
        match self.patt(id) {
            Pat::After(pa, pb) => self.att_after(memo, pa, pb, att, ns, fuel),
            Pat::Choice(pa, pb, _) => self.att_choice(memo, pa, pb, att, ns, fuel),
            Pat::Group(pa, pb, _) => self.att_pair(memo, true, pa, pb, att, ns, fuel),
            Pat::Interleave(pa, pb, _) => self.att_pair(memo, false, pa, pb, att, ns, fuel),
            Pat::OneOrMore(p, _) => self.att_repeat(memo, id, p, att, ns, fuel),
            Pat::Attribute(nc, p) => {
                if contains(self.name_class(nc), &att.name) {
                    let matched = self.value_match(p, att.value.as_str(), ns, fuel)?;
                    self.empty_if(matched)
                } else {
                    self.not_allowed()
                }
            },
            _ => self.not_allowed(),
        }
    }

    /// The derivative of pattern `id` with respect to the attribute `att`.
    pub fn att_deriv<N: Namespaces>(
        &mut self,
        memo: &mut HashMap<u32, PatId>,
        id: PatId,
        att: &Attr,
        ns: &N,
        fuel: usize,
    ) -> (r: Result<PatId, LimitError>)
        requires
            old(self).wf(),
            old(self)@.has(id),
            memo_ok(old(memo)@, old(self)@),
        ensures
            (Deriv { pool: final(self)@, memo: final(memo)@, result: r }) == old(self)@.att_deriv(
                old(memo)@,
                id,
                att.event(),
                binding_of(ns),
                fuel as nat,
            ),
            deriv_ok(old(self)@, Deriv { pool: final(self)@, memo: final(memo)@, result: r }),
        decreases fuel, 0nat,
    {
        if let Some(result) = memo.get(&id.0) {
            return Ok(*result);
        }
        if fuel == 0 {
            return Err(LimitError::TooDeep);
        }
        let v = self.att_step(memo, id, att, ns, fuel - 1)?;
        memo.insert(id.0, v);
        Ok(v)
    }

    /// The pattern `id`, which came from a start tag, with the pattern owed
    /// after each end tag rewritten by `cont`.
    pub fn apply_after(&mut self, id: PatId, cont: Cont, fuel: usize) -> (r: Result<PatId, LimitError>)
        requires
            old(self).wf(),
            old(self)@.has(id),
            old(self)@.has(cont.part()),
        ensures
            (Step { pool: final(self)@, result: r }) == old(self)@.apply_after(id, cont, fuel as nat),
            old(self)@.sound(old(self)@.apply_after(id, cont, fuel as nat)),
        decreases fuel,
    {
        if fuel == 0 {
            return Err(LimitError::TooDeep);
        }
        assert(self@.pat_ok(self@.nodes[id.0 as int]));
        match self.patt(id) {
            Pat::After(pa, pb) => {
                let pb = self.apply_cont(cont, pb)?;
                self.after(pa, pb)
            },
            Pat::Choice(pa, pb, _) => {
                let c1 = self.apply_after(pa, cont, fuel - 1)?;
                let c2 = self.apply_after(pb, cont, fuel - 1)?;
                self.choice(c1, c2)
            },
            Pat::NotAllowed => self.not_allowed(),
            _ => Err(LimitError::NotAfter),
        }
    }

    fn open_choice(
        &mut self,
        memo: &mut HashMap<u32, PatId>,
        l: PatId,
        r: PatId,
        name: &QualifiedName,
        fuel: usize,
    ) -> (res: Result<PatId, LimitError>)
        requires
            old(self).wf(),
            old(self)@.has(l),
            old(self)@.has(r),
            memo_ok(old(memo)@, old(self)@),
        ensures
            (Deriv { pool: final(self)@, memo: final(memo)@, result: res }) == old(self)@.open_choice(
                old(memo)@,
                l,
                r,
                name.event(),
                fuel as nat,
            ),
            deriv_ok(old(self)@, Deriv { pool: final(self)@, memo: final(memo)@, result: res }),
        decreases fuel, 2nat,
    {
        let d1 = self.open_deriv(memo, l, name, fuel)?;
        let d2 = self.open_deriv(memo, r, name, fuel)?;
        self.choice(d1, d2)
    }

    fn open_inner(
        &mut self,
        memo: &mut HashMap<u32, PatId>,
        p: PatId,
        cont: Cont,
        name: &QualifiedName,
        fuel: usize,
    ) -> (r: Result<PatId, LimitError>)
        requires
            old(self).wf(),
            old(self)@.has(p),
            old(self)@.has(cont.part()),
            memo_ok(old(memo)@, old(self)@),
        ensures
            (Deriv { pool: final(self)@, memo: final(memo)@, result: r }) == old(self)@.open_inner(
                old(memo)@,
                p,
                cont,
                name.event(),
                fuel as nat,
            ),
            deriv_ok(old(self)@, Deriv { pool: final(self)@, memo: final(memo)@, result: r }),
        decreases fuel, 1nat,
    {
        let deriv = self.open_deriv(memo, p, name, fuel)?;
        let depth = self.len() + 1;
        self.apply_after(deriv, cont, depth)
    }

    fn open_interleave(
        &mut self,
        memo: &mut HashMap<u32, PatId>,
        pa: PatId,
        pb: PatId,
        name: &QualifiedName,
        fuel: usize,
    ) -> (r: Result<PatId, LimitError>)
        requires
            old(self).wf(),
            old(self)@.has(pa),
            old(self)@.has(pb),
            memo_ok(old(memo)@, old(self)@),
        ensures
            (Deriv { pool: final(self)@, memo: final(memo)@, result: r }) == old(self)@.open_interleave(
                old(memo)@,
                pa,
                pb,
                name.event(),
                fuel as nat,
            ),
            deriv_ok(old(self)@, Deriv { pool: final(self)@, memo: final(memo)@, result: r }),
        decreases fuel, 2nat,
    {
        let c1 = self.open_inner(memo, pa, Cont::InterleaveWith(pb), name, fuel)?;
        let c2 = self.open_inner(memo, pb, Cont::InterleaveAfter(pa), name, fuel)?;
        self.choice(c1, c2)
    }

    fn open_group(
        &mut self,
        memo: &mut HashMap<u32, PatId>,
        pa: PatId,
        pb: PatId,
        name: &QualifiedName,
        fuel: usize,
    ) -> (r: Result<PatId, LimitError>)
        requires
            old(self).wf(),
            old(self)@.has(pa),
            old(self)@.has(pb),
            memo_ok(old(memo)@, old(self)@),
        ensures
            (Deriv { pool: final(self)@, memo: final(memo)@, result: r }) == old(self)@.open_group(
                old(memo)@,
                pa,
                pb,
                name.event(),
                fuel as nat,
            ),
            deriv_ok(old(self)@, Deriv { pool: final(self)@, memo: final(memo)@, result: r }),
        decreases fuel, 2nat,
    {
        let nullable = self.nullable(pa);
        let x = self.open_inner(memo, pa, Cont::GroupWith(pb), name, fuel)?;
        if nullable {
            let d2 = self.open_deriv(memo, pb, name, fuel)?;
            self.choice(x, d2)
        } else {
            Ok(x)
        }
    }

    fn open_step(
        &mut self,
        memo: &mut HashMap<u32, PatId>,
        id: PatId,
        name: &QualifiedName,
        fuel: usize,
    ) -> (r: Result<PatId, LimitError>)
        requires
            old(self).wf(),
            old(self)@.has(id),
            memo_ok(old(memo)@, old(self)@),
        ensures
            (Deriv { pool: final(self)@, memo: final(memo)@, result: r }) == old(self)@.open_step(
                old(memo)@,
                id,
                name.event(),
                fuel as nat,
            ),
            deriv_ok(old(self)@, Deriv { pool: final(self)@, memo: final(memo)@, result: r }),
        decreases fuel, 3nat,
    {
        assert(self@.pat_ok(self@.nodes[id.0 as int]));
        match self.patt(id) {
            Pat::Choice(l, r, _) => self.open_choice(memo, l, r, name, fuel),
            Pat::OneOrMore(pid, _) => self.open_inner(memo, pid, Cont::Repeat(pid), name, fuel),
            Pat::Interleave(ida, idb, _) => self.open_interleave(memo, ida, idb, name, fuel),
            Pat::Group(ida, idb, _) => self.open_group(memo, ida, idb, name, fuel),
            Pat::Element(nc, pat) => {
                if contains(self.name_class(nc), name) {
                    let empty = self.empty()?;
                    self.after(pat, empty)
                } else {
                    self.not_allowed()
                }
            },
            Pat::After(ida, idb) => self.open_inner(memo, ida, Cont::AfterWith(idb), name, fuel),
            Pat::Placeholder(_) => Err(LimitError::Unresolved),
            _ => self.not_allowed(),
        }
    }

    /// The derivative of pattern `id` with respect to the start tag of an
    /// element named `name`.
    pub fn open_deriv(
        &mut self,
        memo: &mut HashMap<u32, PatId>,
        id: PatId,
        name: &QualifiedName,
        fuel: usize,
    ) -> (r: Result<PatId, LimitError>)
        requires
            old(self).wf(),
            old(self)@.has(id),
            memo_ok(old(memo)@, old(self)@),
        ensures
            (Deriv { pool: final(self)@, memo: final(memo)@, result: r }) == old(self)@.open_deriv(
                old(memo)@,
                id,
                name.event(),
                fuel as nat,
            ),
            deriv_ok(old(self)@, Deriv { pool: final(self)@, memo: final(memo)@, result: r }),
        decreases fuel, 0nat,
    {
        if let Some(result) = memo.get(&id.0) {
            return Ok(*result);
        }
        if fuel == 0 {
            return Err(LimitError::TooDeep);
        }
        let result = self.open_step(memo, id, name, fuel - 1)?;
        memo.insert(id.0, result);
        Ok(result)
    }

    /// The derivative of pattern `pid` with respect to the end of a start
    /// tag.
    pub fn close_deriv(&mut self, pid: PatId, fuel: usize) -> (r: Result<PatId, LimitError>)
        requires
            old(self).wf(),
            old(self)@.has(pid),
        ensures
            (Step { pool: final(self)@, result: r }) == old(self)@.close_deriv(pid, fuel as nat),
            old(self)@.sound(old(self)@.close_deriv(pid, fuel as nat)),
        decreases fuel,
    {
        if fuel == 0 {
            return Err(LimitError::TooDeep);
        }
        assert(self@.pat_ok(self@.nodes[pid.0 as int]));
        let pat = self.patt(pid);
        match pat {
            Pat::After(pa, pb) => {
                let a1 = self.close_deriv(pa, fuel - 1)?;
                self.after(a1, pb)
            },
            Pat::Choice(pa, pb, _) => {
                let c1 = self.close_deriv(pa, fuel - 1)?;
                let c2 = self.close_deriv(pb, fuel - 1)?;
                self.choice(c1, c2)
            },
            Pat::Group(pa, pb, _) => {
                let c1 = self.close_deriv(pa, fuel - 1)?;
                let c2 = self.close_deriv(pb, fuel - 1)?;
                self.group(c1, c2)
            },
            Pat::Interleave(pa, pb, _) => {
                let c1 = self.close_deriv(pa, fuel - 1)?;
                let c2 = self.close_deriv(pb, fuel - 1)?;
                self.interleave(c1, c2)
            },
            Pat::OneOrMore(p, _) => {
                let inner = self.close_deriv(p, fuel - 1)?;
                self.one_or_more(inner)
            },
            Pat::Attribute(_, _) => self.not_allowed(),
            _ => Ok(pid),
        }
    }

    /// The derivative of pattern `id` with respect to an end tag.
    pub fn end_deriv(&mut self, id: PatId, fuel: usize) -> (r: Result<PatId, LimitError>)
        requires
            old(self).wf(),
            old(self)@.has(id),
        ensures
            (Step { pool: final(self)@, result: r }) == old(self)@.end_deriv(id, fuel as nat),
            old(self)@.sound(old(self)@.end_deriv(id, fuel as nat)),
        decreases fuel,
    {
        if fuel == 0 {
            return Err(LimitError::TooDeep);
        }
        assert(self@.pat_ok(self@.nodes[id.0 as int]));
        match self.patt(id) {
            Pat::Choice(pa, pb, _) => {
                let c1 = self.end_deriv(pa, fuel - 1)?;
                let c2 = self.end_deriv(pb, fuel - 1)?;
                self.choice(c1, c2)
            },
            Pat::After(pa, pb) => {
                if self.nullable(pa) {
                    Ok(pb)
                } else {
                    self.not_allowed()
                }
            },
            _ => self.not_allowed(),
        }
    }
}

} // verus!
