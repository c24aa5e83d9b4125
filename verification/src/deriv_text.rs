//! The derivative of a pattern with respect to a run of text.

use vstd::prelude::*;
use std::collections::HashMap;
use crate::pool::{LimitError, Pat, PatId, Pool, Schema, Step};
use crate::qname::Namespaces;
use crate::text::{all_space, split_words, words, xml_is_whitespace_str, Blank};

verus! {

/// A pool and a table of derivatives after an operation, with what the
/// operation gave.
pub struct Deriv {
    pub pool: Pool,
    pub memo: Map<u32, PatId>,
    pub result: Result<PatId, LimitError>,
}

impl Deriv {
    pub open spec fn id(self) -> PatId {
        self.result->Ok_0
    }
}

/// A step of the pool beside an unchanged table.
pub open spec fn lift(step: Step<PatId>, memo: Map<u32, PatId>) -> Deriv {
    Deriv { pool: step.pool, memo, result: step.result }
}

/// Every derivative in the table is a pattern of the pool.
pub open spec fn memo_ok(memo: Map<u32, PatId>, pool: Pool) -> bool {
    forall|k: u32| #[trigger] memo.contains_key(k) ==> pool.has(memo[k])
}

/// The operation left the pool well formed, only added to it, and what it
/// gave and what the table holds are patterns of the pool.
pub open spec fn deriv_ok(before: Pool, d: Deriv) -> bool {
    &&& d.pool.wf()
    &&& d.pool.extends(before)
    &&& memo_ok(d.memo, d.pool)
    &&& d.result matches Ok(id) ==> d.pool.has(id)
}

/// `Choice(OneOrMore(p), Empty)`: what may follow one match of `p+`.
pub open spec fn repeat_or_empty(pool: Pool, p: PatId) -> Step<PatId> {
    let more = pool.one_or_more(p);
    match more.result {
        Err(_) => more,
        Ok(m) => {
            let empty = more.pool.intern(Pat::Empty);
            match empty.result {
                Err(_) => empty,
                Ok(e) => empty.pool.choice(m, e),
            }
        },
    }
}

/// `Empty` where `accepted` holds, else `NotAllowed`.
pub open spec fn empty_if(pool: Pool, accepted: bool) -> Step<PatId> {
    if accepted {
        pool.intern(Pat::Empty)
    } else {
        pool.intern(Pat::NotAllowed)
    }
}

/// What is left of a list after its last token: nothing if the pattern is
/// `Empty`, the list itself, and beside it `Empty` where the pattern matches
/// no further token.
pub open spec fn list_rest(pool: Pool, p: PatId) -> Step<PatId> {
    if pool.node(p) is Empty {
        Step { pool, result: Ok(p) }
    } else if pool.is_nullable(p) {
        let list = pool.intern(Pat::List(p));
        match list.result {
            Err(_) => list,
            Ok(l) => {
                let empty = list.pool.intern(Pat::Empty);
                match empty.result {
                    Err(_) => empty,
                    Ok(e) => empty.pool.choice(l, e),
                }
            },
        }
    } else {
        pool.intern(Pat::List(p))
    }
}

impl Pool {
    /// The derivative of pattern `id` with respect to the text `text`, where
    /// `binding` tells the namespaces of prefixes. Derivatives that `memo`
    /// holds are taken from it, and each one computed is put into it. The
    /// patterns are followed `fuel` levels deep.
    pub open spec fn text_deriv(
        self,
        memo: Map<u32, PatId>,
        id: PatId,
        text: Seq<char>,
        binding: spec_fn(Seq<char>) -> Option<Seq<char>>,
        fuel: nat,
    ) -> Deriv
        decreases fuel, 0nat, 0nat,
    {
        if memo.contains_key(id.0) {
            Deriv { pool: self, memo, result: Ok(memo[id.0]) }
        } else if fuel == 0 {
            Deriv { pool: self, memo, result: Err(LimitError::TooDeep) }
        } else {
            let f = (fuel - 1) as nat;
            let done = self.text_step(memo, id, text, binding, f);
            if done.result is Err || self.list_stopped(id, text, binding, f) {
                done
            } else {
                Deriv { memo: done.memo.insert(id.0, done.id()), ..done }
            }
        }
    }

    /// The derivative of pattern `id` by the shape of the pattern.
    pub open spec fn text_step(
        self,
        memo: Map<u32, PatId>,
        id: PatId,
        text: Seq<char>,
        binding: spec_fn(Seq<char>) -> Option<Seq<char>>,
        f: nat,
    ) -> Deriv
        decreases f, 3nat, 0nat,
    {
        match self.node(id) {
            Pat::Choice(pa, pb, _) => self.text_choice(memo, pa, pb, text, binding, f),
            Pat::Interleave(pa, pb, _) => self.text_interleave(memo, pa, pb, text, binding, f),
            Pat::Group(pa, pb, _) => self.text_group(memo, pa, pb, text, binding, f),
            Pat::After(pa, pb) => self.text_after(memo, pa, pb, text, binding, f),
            Pat::OneOrMore(p, _) => self.text_repeat(memo, p, text, binding, f),
            Pat::Text => lift(self.intern(Pat::Text), memo),
            Pat::Datatype(dt) => lift(
                empty_if(self, self.datatypes[dt as int].accepts(text)),
                memo,
            ),
            Pat::DatatypeValue(v) => lift(
                empty_if(self, self.values[v as int].accepts_with(text, binding)),
                memo,
            ),
            Pat::DatatypeExcept(dt, except) => self.text_except(
                memo,
                dt,
                except,
                text,
                binding,
                f,
            ),
            Pat::List(p) => self.text_list(memo, p, text, binding, f),
            Pat::Empty => lift(empty_if(self, all_space(text)), memo),
            Pat::NotAllowed | Pat::Attribute(_, _) => lift(self.intern(Pat::NotAllowed), memo),
            Pat::Element(_, _) => if all_space(text) {
                Deriv { pool: self, memo, result: Ok(id) }
            } else {
                lift(self.intern(Pat::NotAllowed), memo)
            },
            Pat::Placeholder(_) => Deriv { pool: self, memo, result: Err(LimitError::Unresolved) },
        }
    }

    /// `Choice(D(pa), D(pb))`.
    pub open spec fn text_choice(
        self,
        memo: Map<u32, PatId>,
        pa: PatId,
        pb: PatId,
        text: Seq<char>,
        binding: spec_fn(Seq<char>) -> Option<Seq<char>>,
        f: nat,
    ) -> Deriv
        decreases f, 2nat, 0nat,
    {
        let a = self.text_deriv(memo, pa, text, binding, f);
        if a.result is Err {
            a
        } else {
            let b = a.pool.text_deriv(a.memo, pb, text, binding, f);
            if b.result is Err {
                b
            } else {
                lift(b.pool.choice(a.id(), b.id()), b.memo)
            }
        }
    }

    /// `Choice(Interleave(D(pa), pb), Interleave(pa, D(pb)))`.
    pub open spec fn text_interleave(
        self,
        memo: Map<u32, PatId>,
        pa: PatId,
        pb: PatId,
        text: Seq<char>,
        binding: spec_fn(Seq<char>) -> Option<Seq<char>>,
        f: nat,
    ) -> Deriv
        decreases f, 2nat, 0nat,
    {
        let d1 = self.text_deriv(memo, pa, text, binding, f);
        if d1.result is Err {
            d1
        } else {
            let a = d1.pool.interleave(d1.id(), pb);
            if a.result is Err {
                lift(a, d1.memo)
            } else {
                let d2 = a.pool.text_deriv(d1.memo, pb, text, binding, f);
                if d2.result is Err {
                    d2
                } else {
                    let b = d2.pool.interleave(pa, d2.id());
                    if b.result is Err {
                        lift(b, d2.memo)
                    } else {
                        lift(b.pool.choice(a.result->Ok_0, b.result->Ok_0), d2.memo)
                    }
                }
            }
        }
    }

    /// `Group(D(pa), pb)`, and beside it `D(pb)` where `pa` is nullable.
    pub open spec fn text_group(
        self,
        memo: Map<u32, PatId>,
        pa: PatId,
        pb: PatId,
        text: Seq<char>,
        binding: spec_fn(Seq<char>) -> Option<Seq<char>>,
        f: nat,
    ) -> Deriv
        decreases f, 2nat, 0nat,
    {
        let nullable = self.is_nullable(pa);
        let d1 = self.text_deriv(memo, pa, text, binding, f);
        if d1.result is Err {
            d1
        } else {
            let p = d1.pool.group(d1.id(), pb);
            if p.result is Err || !nullable {
                lift(p, d1.memo)
            } else {
                let d2 = p.pool.text_deriv(d1.memo, pb, text, binding, f);
                if d2.result is Err {
                    d2
                } else {
                    lift(d2.pool.choice(p.result->Ok_0, d2.id()), d2.memo)
                }
            }
        }
    }

    /// `After(D(pa), pb)`.
    pub open spec fn text_after(
        self,
        memo: Map<u32, PatId>,
        pa: PatId,
        pb: PatId,
        text: Seq<char>,
        binding: spec_fn(Seq<char>) -> Option<Seq<char>>,
        f: nat,
    ) -> Deriv
        decreases f, 2nat, 0nat,
    {
        let d = self.text_deriv(memo, pa, text, binding, f);
        if d.result is Err {
            d
        } else {
            lift(d.pool.after(d.id(), pb), d.memo)
        }
    }

    /// `Group(D(p), Choice(OneOrMore(p), Empty))`.
    pub open spec fn text_repeat(
        self,
        memo: Map<u32, PatId>,
        p: PatId,
        text: Seq<char>,
        binding: spec_fn(Seq<char>) -> Option<Seq<char>>,
        f: nat,
    ) -> Deriv
        decreases f, 2nat, 0nat,
    {
        let d = self.text_deriv(memo, p, text, binding, f);
        if d.result is Err {
            d
        } else {
            let rest = repeat_or_empty(d.pool, p);
            if rest.result is Err {
                lift(rest, d.memo)
            } else {
                lift(rest.pool.group(d.id(), rest.result->Ok_0), d.memo)
            }
        }
    }

    /// `Empty` if the datatype accepts the text and the derivative of the
    /// exception is not nullable, else `NotAllowed`.
    pub open spec fn text_except(
        self,
        memo: Map<u32, PatId>,
        dt: u32,
        except: PatId,
        text: Seq<char>,
        binding: spec_fn(Seq<char>) -> Option<Seq<char>>,
        f: nat,
    ) -> Deriv
        decreases f, 2nat, 0nat,
    {
        let d = self.text_deriv(memo, except, text, binding, f);
        if d.result is Err {
            d
        } else {
            lift(
                empty_if(
                    d.pool,
                    self.datatypes[dt as int].accepts(text) && !d.pool.is_nullable(d.id()),
                ),
                d.memo,
            )
        }
    }

    /// The derivative of `List(p)`: `p` is taken through the tokens of the
    /// text; `NotAllowed` on the way is the result, else what is left of the
    /// list.
    pub open spec fn text_list(
        self,
        memo: Map<u32, PatId>,
        p: PatId,
        text: Seq<char>,
        binding: spec_fn(Seq<char>) -> Option<Seq<char>>,
        f: nat,
    ) -> Deriv
        decreases f, 2nat, 0nat,
    {
        let folded = self.list_fold(p, words(text, Blank::Unicode), 0, binding, f);
        match folded.result {
            Err(e) => Deriv { pool: folded.pool, memo, result: Err(e) },
            Ok((last, true)) => Deriv { pool: folded.pool, memo, result: Ok(last) },
            Ok((last, false)) => lift(list_rest(folded.pool, last), memo),
        }
    }

    /// Whether `id` is a list whose tokens ran into `NotAllowed`: that is
    /// given at once, and the table does not note it.
    pub open spec fn list_stopped(
        self,
        id: PatId,
        text: Seq<char>,
        binding: spec_fn(Seq<char>) -> Option<Seq<char>>,
        f: nat,
    ) -> bool
        decreases f, 2nat, 0nat,
    {
        match self.node(id) {
            Pat::List(p) => self.list_fold(
                p,
                words(text, Blank::Unicode),
                0,
                binding,
                f,
            ).result matches Ok((_, true)),
            _ => false,
        }
    }

    /// The pattern `p` after the tokens `items[i..]`, each taken as a text of
    /// its own with a table of its own, and whether `NotAllowed` ended the
    /// walk.
    pub open spec fn list_fold(
        self,
        p: PatId,
        items: Seq<Seq<char>>,
        i: int,
        binding: spec_fn(Seq<char>) -> Option<Seq<char>>,
        f: nat,
    ) -> Step<(PatId, bool)>
        decreases f, 1nat, items.len() - i,
    {
        if i < 0 || i >= items.len() {
            Step { pool: self, result: Ok((p, false)) }
        } else {
            let d = self.text_deriv(Map::empty(), p, items[i], binding, f);
            if d.result is Err {
                Step { pool: d.pool, result: Err(d.result->Err_0) }
            } else if d.pool.node(d.id()) is NotAllowed {
                Step { pool: d.pool, result: Ok((d.id(), true)) }
            } else {
                d.pool.list_fold(d.id(), items, i + 1, binding, f)
            }
        }
    }
}

/// What `ns` binds prefixes to.
pub open spec fn binding_of<N: Namespaces>(ns: &N) -> spec_fn(Seq<char>) -> Option<Seq<char>> {
    |p: Seq<char>| ns.binding(p)
}

impl<'a> Schema<'a> {
    pub(crate) fn repeat_or_empty(&mut self, p: PatId) -> (r: Result<PatId, LimitError>)
        requires
            old(self).wf(),
            old(self)@.has(p),
        ensures
            (Step { pool: final(self)@, result: r }) == repeat_or_empty(old(self)@, p),
            old(self)@.sound(repeat_or_empty(old(self)@, p)),
    {
        let more = self.one_or_more(p)?;
        let empty = self.empty()?;
        self.choice(more, empty)
    }

    pub(crate) fn empty_if(&mut self, accepted: bool) -> (r: Result<PatId, LimitError>)
        requires
            old(self).wf(),
        ensures
            (Step { pool: final(self)@, result: r }) == empty_if(old(self)@, accepted),
            old(self)@.sound(empty_if(old(self)@, accepted)),
    {
        if accepted {
            self.empty()
        } else {
            self.not_allowed()
        }
    }

    fn list_rest(&mut self, p: PatId) -> (r: Result<PatId, LimitError>)
        requires
            old(self).wf(),
            old(self)@.has(p),
        ensures
            (Step { pool: final(self)@, result: r }) == list_rest(old(self)@, p),
            old(self)@.sound(list_rest(old(self)@, p)),
    {
        if self.is_empty(p) {
            Ok(p)
        } else if self.nullable(p) {
            let list = self.list(p)?;
            let empty = self.empty()?;
            self.choice(list, empty)
        } else {
            self.list(p)
        }
    }

    /// The pattern `p` after the tokens of `text`, and whether `NotAllowed`
    /// ended the walk.
    fn list_fold<N: Namespaces>(&mut self, p: PatId, text: &str, ns: &N, fuel: usize) -> (r: Result<
        (PatId, bool),
        LimitError,
    >)
        requires
            old(self).wf(),
            old(self)@.has(p),
        ensures
            (Step { pool: final(self)@, result: r }) == old(self)@.list_fold(
                p,
                words(text@, Blank::Unicode),
                0,
                binding_of(ns),
                fuel as nat,
            ),
            final(self).wf(),
            final(self)@.extends(old(self)@),
            r matches Ok((id, _)) ==> final(self)@.has(id),
        decreases fuel, 1nat, 0nat,
    {
        let items = split_words(text, Blank::Unicode);
        let ghost w = words(text@, Blank::Unicode);
        let mut cur = p;
        let mut i: usize = 0;
        while i < items.len()
            invariant
                i <= items.len(),
                w == words(text@, Blank::Unicode),
                items@.len() == w.len(),
                forall|k: int| 0 <= k < items@.len() ==> (#[trigger] items@[k])@ == w[k],
                self.wf(),
                self@.has(cur),
                self@.extends(old(self)@),
                old(self)@.list_fold(p, w, 0, binding_of(ns), fuel as nat) == self@.list_fold(
                    cur,
                    w,
                    i as int,
                    binding_of(ns),
                    fuel as nat,
                ),
            decreases items.len() - i,
        {
            let mut memo: HashMap<u32, PatId> = HashMap::new();
            proof {
                assert(memo@ =~= Map::empty());
                assert(items@[i as int]@ == w[i as int]);
            }
            cur = self.text_deriv_memo(&mut memo, cur, items[i].as_str(), ns, fuel)?;
            if self.is_not_allowed(cur) {
                return Ok((cur, true));
            }
            i += 1;
        }
        Ok((cur, false))
    }

    fn text_choice<N: Namespaces>(
        &mut self,
        memo: &mut HashMap<u32, PatId>,
        pa: PatId,
        pb: PatId,
        text: &str,
        ns: &N,
        fuel: usize,
    ) -> (r: Result<PatId, LimitError>)
        requires
            old(self).wf(),
            old(self)@.has(pa),
            old(self)@.has(pb),
            memo_ok(old(memo)@, old(self)@),
        ensures
            (Deriv { pool: final(self)@, memo: final(memo)@, result: r }) == old(self)@.text_choice(
                old(memo)@,
                pa,
                pb,
                text@,
                binding_of(ns),
                fuel as nat,
            ),
            deriv_ok(old(self)@, Deriv { pool: final(self)@, memo: final(memo)@, result: r }),
        decreases fuel, 2nat, 0nat,
    {
        let a = self.text_deriv_memo(memo, pa, text, ns, fuel)?;
        let b = self.text_deriv_memo(memo, pb, text, ns, fuel)?;
        self.choice(a, b)
    }

    fn text_interleave<N: Namespaces>(
        &mut self,
        memo: &mut HashMap<u32, PatId>,
        pa: PatId,
        pb: PatId,
        text: &str,
        ns: &N,
        fuel: usize,
    ) -> (r: Result<PatId, LimitError>)
        requires
            old(self).wf(),
            old(self)@.has(pa),
            old(self)@.has(pb),
            memo_ok(old(memo)@, old(self)@),
        ensures
            (Deriv { pool: final(self)@, memo: final(memo)@, result: r }) == old(self)@.text_interleave(
                old(memo)@,
                pa,
                pb,
                text@,
                binding_of(ns),
                fuel as nat,
            ),
            deriv_ok(old(self)@, Deriv { pool: final(self)@, memo: final(memo)@, result: r }),
        decreases fuel, 2nat, 0nat,
    {
        let d1 = self.text_deriv_memo(memo, pa, text, ns, fuel)?;
        let a = self.interleave(d1, pb)?;
        let d2 = self.text_deriv_memo(memo, pb, text, ns, fuel)?;
        let b = self.interleave(pa, d2)?;
        self.choice(a, b)
    }

    fn text_group<N: Namespaces>(
        &mut self,
        memo: &mut HashMap<u32, PatId>,
        pa: PatId,
        pb: PatId,
        text: &str,
        ns: &N,
        fuel: usize,
    ) -> (r: Result<PatId, LimitError>)
        requires
            old(self).wf(),
            old(self)@.has(pa),
            old(self)@.has(pb),
            memo_ok(old(memo)@, old(self)@),
        ensures
            (Deriv { pool: final(self)@, memo: final(memo)@, result: r }) == old(self)@.text_group(
                old(memo)@,
                pa,
                pb,
                text@,
                binding_of(ns),
                fuel as nat,
            ),
            deriv_ok(old(self)@, Deriv { pool: final(self)@, memo: final(memo)@, result: r }),
        decreases fuel, 2nat, 0nat,
    {
        let nullable = self.nullable(pa);
        let d1 = self.text_deriv_memo(memo, pa, text, ns, fuel)?;
        let p = self.group(d1, pb)?;
        if nullable {
            let d2 = self.text_deriv_memo(memo, pb, text, ns, fuel)?;
            self.choice(p, d2)
        } else {
            Ok(p)
        }
    }

    fn text_after<N: Namespaces>(
        &mut self,
        memo: &mut HashMap<u32, PatId>,
        pa: PatId,
        pb: PatId,
        text: &str,
        ns: &N,
        fuel: usize,
    ) -> (r: Result<PatId, LimitError>)
        requires
            old(self).wf(),
            old(self)@.has(pa),
            old(self)@.has(pb),
            memo_ok(old(memo)@, old(self)@),
        ensures
            (Deriv { pool: final(self)@, memo: final(memo)@, result: r }) == old(self)@.text_after(
                old(memo)@,
                pa,
                pb,
                text@,
                binding_of(ns),
                fuel as nat,
            ),
            deriv_ok(old(self)@, Deriv { pool: final(self)@, memo: final(memo)@, result: r }),
        decreases fuel, 2nat, 0nat,
    {
        let d = self.text_deriv_memo(memo, pa, text, ns, fuel)?;
        self.after(d, pb)
    }

    fn text_repeat<N: Namespaces>(
        &mut self,
        memo: &mut HashMap<u32, PatId>,
        p: PatId,
        text: &str,
        ns: &N,
        fuel: usize,
    ) -> (r: Result<PatId, LimitError>)
        requires
            old(self).wf(),
            old(self)@.has(p),
            memo_ok(old(memo)@, old(self)@),
        ensures
            (Deriv { pool: final(self)@, memo: final(memo)@, result: r }) == old(self)@.text_repeat(
                old(memo)@,
                p,
                text@,
                binding_of(ns),
                fuel as nat,
            ),
            deriv_ok(old(self)@, Deriv { pool: final(self)@, memo: final(memo)@, result: r }),
        decreases fuel, 2nat, 0nat,
    {
        let d = self.text_deriv_memo(memo, p, text, ns, fuel)?;
        let rest = self.repeat_or_empty(p)?;
        self.group(d, rest)
    }

    fn text_except<N: Namespaces>(
        &mut self,
        memo: &mut HashMap<u32, PatId>,
        dt: u32,
        except: PatId,
        text: &str,
        ns: &N,
        fuel: usize,
    ) -> (r: Result<PatId, LimitError>)
        requires
            old(self).wf(),
            old(self)@.has(except),
            dt < old(self)@.datatypes.len(),
            memo_ok(old(memo)@, old(self)@),
        ensures
            (Deriv { pool: final(self)@, memo: final(memo)@, result: r }) == old(self)@.text_except(
                old(memo)@,
                dt,
                except,
                text@,
                binding_of(ns),
                fuel as nat,
            ),
            deriv_ok(old(self)@, Deriv { pool: final(self)@, memo: final(memo)@, result: r }),
        decreases fuel, 2nat, 0nat,
    {
        let d = self.text_deriv_memo(memo, except, text, ns, fuel)?;
        let accepted = self.datatype(dt).is_valid(text) && !self.nullable(d);
        self.empty_if(accepted)
    }

    fn text_list<N: Namespaces>(
        &mut self,
        memo: &mut HashMap<u32, PatId>,
        p: PatId,
        text: &str,
        ns: &N,
        fuel: usize,
    ) -> (r: Result<(PatId, bool), LimitError>)
        requires
            old(self).wf(),
            old(self)@.has(p),
            memo_ok(old(memo)@, old(self)@),
        ensures
            (Deriv {
                pool: final(self)@,
                memo: final(memo)@,
                result: match r {
                    Ok((id, _)) => Ok(id),
                    Err(e) => Err(e),
                },
            }) == old(self)@.text_list(old(memo)@, p, text@, binding_of(ns), fuel as nat),
            deriv_ok(
                old(self)@,
                Deriv {
                    pool: final(self)@,
                    memo: final(memo)@,
                    result: match r {
                        Ok((id, _)) => Ok(id),
                        Err(e) => Err(e),
                    },
                },
            ),
            r matches Ok((_, stopped)) ==> stopped == (old(self)@.list_fold(
                p,
                words(text@, Blank::Unicode),
                0,
                binding_of(ns),
                fuel as nat,
            ).result matches Ok((_, true))),
        decreases fuel, 2nat, 0nat,
    {
        let (last, stopped) = self.list_fold(p, text, ns, fuel)?;
        if stopped {
            return Ok((last, true));
        }
        let rest = self.list_rest(last)?;
        Ok((rest, false))
    }

    fn text_step<N: Namespaces>(
        &mut self,
        memo: &mut HashMap<u32, PatId>,
        id: PatId,
        text: &str,
        ns: &N,
        fuel: usize,
    ) -> (r: Result<(PatId, bool), LimitError>)
        requires
            old(self).wf(),
            old(self)@.has(id),
            memo_ok(old(memo)@, old(self)@),
        ensures
            (Deriv {
                pool: final(self)@,
                memo: final(memo)@,
                result: match r {
                    Ok((id, _)) => Ok(id),
                    Err(e) => Err(e),
                },
            }) == old(self)@.text_step(old(memo)@, id, text@, binding_of(ns), fuel as nat),
            deriv_ok(
                old(self)@,
                Deriv {
                    pool: final(self)@,
                    memo: final(memo)@,
                    result: match r {
                        Ok((id, _)) => Ok(id),
                        Err(e) => Err(e),
                    },
                },
            ),
            r matches Ok((_, stopped)) ==> stopped == old(self)@.list_stopped(
                id,
                text@,
                binding_of(ns),
                fuel as nat,
            ),
        decreases fuel, 3nat, 0nat,
    {
        assert(self@.pat_ok(self@.nodes[id.0 as int]));
        let current = self.patt(id);
        let result = match current {
            Pat::Choice(pa, pb, _) => self.text_choice(memo, pa, pb, text, ns, fuel)?,
            Pat::Interleave(pa, pb, _) => self.text_interleave(memo, pa, pb, text, ns, fuel)?,
            Pat::Group(pa, pb, _) => self.text_group(memo, pa, pb, text, ns, fuel)?,
            Pat::After(pa, pb) => self.text_after(memo, pa, pb, text, ns, fuel)?,
            Pat::OneOrMore(p, _) => self.text_repeat(memo, p, text, ns, fuel)?,
            Pat::Text => self.text()?,
            Pat::Datatype(dt) => {
                let accepted = self.datatype(dt).is_valid(text);
                self.empty_if(accepted)?
            },
            Pat::DatatypeValue(dt) => {
                let accepted = self.value(dt).is_valid_with_ns(text, ns);
                self.empty_if(accepted)?
            },
            Pat::DatatypeExcept(dt, except) => self.text_except(memo, dt, except, text, ns, fuel)?,
            Pat::List(p) => {
                return self.text_list(memo, p, text, ns, fuel);
            },
            Pat::Empty => {
                let accepted = xml_is_whitespace_str(text);
                self.empty_if(accepted)?
            },
            Pat::NotAllowed | Pat::Attribute(_, _) => self.not_allowed()?,
            Pat::Element(_, _) => {
                if xml_is_whitespace_str(text) {
                    id
                } else {
                    self.not_allowed()?
                }
            },
            Pat::Placeholder(_) => {
                return Err(LimitError::Unresolved);
            },
        };
        Ok((result, false))
    }

    /// The derivative of pattern `id` with respect to the text `text`.
    /// Derivatives that `memo` holds are taken from it, and each one
    /// computed is put into it.
    pub fn text_deriv_memo<N: Namespaces>(
        &mut self,
        memo: &mut HashMap<u32, PatId>,
        id: PatId,
        text: &str,
        ns: &N,
        fuel: usize,
    ) -> (r: Result<PatId, LimitError>)
        requires
            old(self).wf(),
            old(self)@.has(id),
            memo_ok(old(memo)@, old(self)@),
        ensures
            (Deriv { pool: final(self)@, memo: final(memo)@, result: r }) == old(self)@.text_deriv(
                old(memo)@,
                id,
                text@,
                binding_of(ns),
                fuel as nat,
            ),
            deriv_ok(old(self)@, Deriv { pool: final(self)@, memo: final(memo)@, result: r }),
        decreases fuel, 0nat, 0nat,
    {
        if let Some(result) = memo.get(&id.0) {
            return Ok(*result);
        }
        if fuel == 0 {
            return Err(LimitError::TooDeep);
        }
        let (result, stopped) = self.text_step(memo, id, text, ns, fuel - 1)?;
        if !stopped {
            memo.insert(id.0, result);
        }
        Ok(result)
    }
}

} // verus!
