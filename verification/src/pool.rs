//! The pattern pool: every pattern is stored once and named by its number,
//! and patterns are built by constructors that simplify as they go.

use vstd::prelude::*;
use std::collections::HashMap;
use std::hash::BuildHasherDefault;
use fnv::{FnvHashSet, FnvHasher};
use crate::datatype::{DatatypeValues, Datatypes};
use crate::model::{same_name_class, NameClass, NameSet};

verus! {

/// The number of a pattern in the pool.
#[derive(PartialEq, Eq, Structural, Hash, Copy, Clone, Debug)]
pub struct PatId(pub u32);

/// A pattern of the pool. Compound patterns name their parts by number;
/// name classes, datatypes and values are named by their number in the
/// tables of the pool.
#[derive(PartialEq, Eq, Structural, Hash, Copy, Clone, Debug)]
pub enum Pat {
    Choice(PatId, PatId, bool),
    Interleave(PatId, PatId, bool),
    Group(PatId, PatId, bool),
    OneOrMore(PatId, bool),
    Empty,
    Text,
    NotAllowed,
    Attribute(u32, PatId),
    Element(u32, PatId),
    Datatype(u32),
    DatatypeValue(u32),
    DatatypeExcept(u32, PatId),
    List(PatId),
    /// A reference to a definition that is being compiled.
    Placeholder(usize),
    /// Inside an element that matched the first pattern; the second is owed
    /// after its end tag.
    After(PatId, PatId),
}

/// A limit that an operation ran into.
#[derive(PartialEq, Eq, Structural, Copy, Clone, Debug)]
pub enum LimitError {
    /// The pool holds more patterns than it may.
    PoolFull,
    /// The patterns are nested deeper than the operation was allowed to go.
    TooDeep,
    /// A reference was met whose definition was never put in its place.
    Unresolved,
    /// A pattern that is not waiting for an end tag was met where only such
    /// patterns can stand.
    NotAfter,
    /// A text reaches beyond the positions that can be counted.
    TooLong,
}

/// The pool refuses to grow beyond this many patterns.
pub const MAX_PATTERNS: usize = 0x0fff_ffff;

impl Pat {
    /// Whether the pattern matches the empty sequence of children, as far as
    /// the pattern itself tells.
    pub open spec fn nullable(self) -> bool {
        match self {
            Pat::Choice(_, _, nullable) => nullable,
            Pat::Interleave(_, _, nullable) => nullable,
            Pat::Group(_, _, nullable) => nullable,
            Pat::OneOrMore(_, nullable) => nullable,
            Pat::Empty => true,
            Pat::Text => true,
            _ => false,
        }
    }

    pub fn is_nullable(&self) -> (r: bool)
        ensures
            r == self.nullable(),
    {
        match self {
            Pat::Choice(_, _, nullable) => *nullable,
            Pat::Interleave(_, _, nullable) => *nullable,
            Pat::Group(_, _, nullable) => *nullable,
            Pat::OneOrMore(_, nullable) => *nullable,
            Pat::Empty => true,
            Pat::Text => true,
            Pat::NotAllowed => false,
            Pat::Attribute(_, _) => false,
            Pat::Element(_, _) => false,
            Pat::Datatype(_) => false,
            Pat::DatatypeValue(_) => false,
            Pat::DatatypeExcept(_, _) => false,
            Pat::List(_) => false,
            Pat::Placeholder(_name) => false,
            Pat::After(_, _) => false,
        }
    }
}

/// The pool as a value: the patterns by number, the number of each pattern
/// that was interned, the placeholders of the definitions, and the tables.
pub struct Pool {
    pub nodes: Seq<Pat>,
    pub index: Map<Pat, PatId>,
    pub refs: Map<usize, PatId>,
    pub names: Seq<NameSet>,
    pub datatypes: Seq<Datatypes>,
    pub values: Seq<DatatypeValues>,
}

/// A pool after an operation, with what the operation gave.
pub struct Step<T> {
    pub pool: Pool,
    pub result: Result<T, LimitError>,
}

impl Pool {
    pub open spec fn has(self, id: PatId) -> bool {
        id.0 < self.nodes.len()
    }

    pub open spec fn node(self, id: PatId) -> Pat {
        self.nodes[id.0 as int]
    }

    /// Every number that the pattern holds names something in the pool.
    pub open spec fn pat_ok(self, p: Pat) -> bool {
        match p {
            Pat::Choice(a, b, _) => self.has(a) && self.has(b),
            Pat::Interleave(a, b, _) => self.has(a) && self.has(b),
            Pat::Group(a, b, _) => self.has(a) && self.has(b),
            Pat::After(a, b) => self.has(a) && self.has(b),
            Pat::OneOrMore(a, _) => self.has(a),
            Pat::List(a) => self.has(a),
            Pat::Attribute(n, a) => n < self.names.len() && self.has(a),
            Pat::Element(n, a) => n < self.names.len() && self.has(a),
            Pat::Datatype(d) => d < self.datatypes.len(),
            Pat::DatatypeExcept(d, a) => d < self.datatypes.len() && self.has(a),
            Pat::DatatypeValue(v) => v < self.values.len(),
            _ => true,
        }
    }

    /// The pool is within its limit and closed: every number in it names
    /// something in it, every datatype is well formed, and what was interned
    /// is found.
    pub open spec fn wf(self) -> bool {
        &&& self.nodes.len() <= MAX_PATTERNS + 1
        &&& self.names.len() <= u32::MAX
        &&& self.datatypes.len() <= u32::MAX
        &&& self.values.len() <= u32::MAX
        &&& forall|i: int| 0 <= i < self.nodes.len() ==> self.pat_ok(#[trigger] self.nodes[i])
        &&& forall|p: Pat| #[trigger] self.index.contains_key(p) ==> self.has(self.index[p])
        &&& forall|k: usize| #[trigger] self.refs.contains_key(k) ==> self.has(self.refs[k])
        &&& forall|i: int| 0 <= i < self.datatypes.len() ==> (#[trigger] self.datatypes[i]).wf()
        &&& self.coherent()
        &&& self.registered()
    }

    /// The place `i` was that of a placeholder when it was interned.
    pub open spec fn was_placeholder(self, i: int) -> bool {
        exists|k: usize| #[trigger]
            self.index.contains_key(Pat::Placeholder(k)) && self.index[Pat::Placeholder(k)].0 == i
    }

    /// Every pattern of the pool is found under its number: equal patterns
    /// share one number. The one exception is a place that was a
    /// placeholder's: it holds the pattern of its definition, which is found
    /// under the number of that definition.
    pub open spec fn registered(self) -> bool {
        forall|i: int|
            0 <= i < self.nodes.len() ==> self.index.contains_key(#[trigger] self.nodes[i]) && (
            self.index[self.nodes[i]].0 == i || self.was_placeholder(i))
    }

    /// A pattern that was interned stands under its number. (A placeholder
    /// gives its place to the pattern of its definition.)
    pub open spec fn coherent(self) -> bool {
        forall|p: Pat| #[trigger]
            self.index.contains_key(p) && !(p is Placeholder) ==> self.node(self.index[p]) == p
    }

    /// `self` is `before` with patterns added: nothing that was there
    /// changed.
    pub open spec fn extends(self, before: Pool) -> bool {
        &&& before.nodes.len() <= self.nodes.len()
        &&& forall|i: int| 0 <= i < before.nodes.len() ==> self.nodes[i] == before.nodes[i]
        &&& self.names == before.names
        &&& self.datatypes == before.datatypes
        &&& self.values == before.values
        &&& self.refs == before.refs
    }

    /// The pool that holds nothing.
    pub open spec fn empty() -> Pool {
        Pool {
            nodes: Seq::empty(),
            index: Map::empty(),
            refs: Map::empty(),
            names: Seq::empty(),
            datatypes: Seq::empty(),
            values: Seq::empty(),
        }
    }

    /// The number of the first name class equal to `nc` in a table.
    pub open spec fn find_name(names: Seq<NameSet>, nc: NameSet) -> Option<int>
        decreases names.len(),
    {
        if names.len() == 0 {
            None
        } else {
            match Pool::find_name(names.drop_last(), nc) {
                Some(i) => Some(i),
                None => if names.last() == nc {
                    Some(names.len() - 1)
                } else {
                    None
                },
            }
        }
    }

    /// The pool with the name class `nc` in its table, and the number of
    /// `nc` there: that of the first equal name class, or a new one.
    pub open spec fn with_name(self, nc: NameSet) -> Step<u32> {
        match Pool::find_name(self.names, nc) {
            Some(i) => Step { pool: self, result: Ok(i as u32) },
            None => if self.names.len() >= u32::MAX {
                Step { pool: self, result: Err(LimitError::PoolFull) }
            } else {
                Step {
                    pool: Pool { names: self.names.push(nc), ..self },
                    result: Ok(self.names.len() as u32),
                }
            },
        }
    }

    /// `Attribute` or `Element` (`element` tells which) of the name class
    /// `nc` with content `content`.
    pub open spec fn named(self, element: bool, nc: NameSet, content: PatId) -> Step<PatId> {
        let step = self.with_name(nc);
        match step.result {
            Err(e) => Step { pool: step.pool, result: Err(e) },
            Ok(n) => step.pool.intern(
                if element {
                    Pat::Element(n, content)
                } else {
                    Pat::Attribute(n, content)
                },
            ),
        }
    }

    /// The number of the first datatype in a table that is made of the same
    /// as `dt`.
    pub open spec fn find_datatype(table: Seq<Datatypes>, dt: Datatypes) -> Option<int>
        decreases table.len(),
    {
        if table.len() == 0 {
            None
        } else {
            match Pool::find_datatype(table.drop_last(), dt) {
                Some(i) => Some(i),
                None => if table.last().form() == dt.form() {
                    Some(table.len() - 1)
                } else {
                    None
                },
            }
        }
    }

    /// The number of the first value in a table that is made of the same as
    /// `v`.
    pub open spec fn find_value(table: Seq<DatatypeValues>, v: DatatypeValues) -> Option<int>
        decreases table.len(),
    {
        if table.len() == 0 {
            None
        } else {
            match Pool::find_value(table.drop_last(), v) {
                Some(i) => Some(i),
                None => if table.last().form() == v.form() {
                    Some(table.len() - 1)
                } else {
                    None
                },
            }
        }
    }

    /// The pool with the datatype `dt` in its table, and the number of `dt`
    /// there: that of the first datatype made of the same, or a new one.
    pub open spec fn with_datatype(self, dt: Datatypes) -> Step<u32> {
        match Pool::find_datatype(self.datatypes, dt) {
            Some(i) => Step { pool: self, result: Ok(i as u32) },
            None => if self.datatypes.len() >= u32::MAX {
                Step { pool: self, result: Err(LimitError::PoolFull) }
            } else {
                Step {
                    pool: Pool { datatypes: self.datatypes.push(dt), ..self },
                    result: Ok(self.datatypes.len() as u32),
                }
            },
        }
    }

    /// The pool with the value `v` in its table, and the number of `v` there:
    /// that of the first value made of the same, or a new one.
    pub open spec fn with_value(self, v: DatatypeValues) -> Step<u32> {
        match Pool::find_value(self.values, v) {
            Some(i) => Step { pool: self, result: Ok(i as u32) },
            None => if self.values.len() >= u32::MAX {
                Step { pool: self, result: Err(LimitError::PoolFull) }
            } else {
                Step {
                    pool: Pool { values: self.values.push(v), ..self },
                    result: Ok(self.values.len() as u32),
                }
            },
        }
    }

    /// A pattern for the datatype `dt`, without what `except` matches.
    pub open spec fn datatype_named(self, dt: Datatypes, except: Option<PatId>) -> Step<PatId> {
        let step = self.with_datatype(dt);
        match step.result {
            Err(e) => Step { pool: step.pool, result: Err(e) },
            Ok(d) => step.pool.intern(
                match except {
                    Some(e) => Pat::DatatypeExcept(d, e),
                    None => Pat::Datatype(d),
                },
            ),
        }
    }

    /// A pattern for the value `v`.
    pub open spec fn datatype_valued(self, v: DatatypeValues) -> Step<PatId> {
        let step = self.with_value(v);
        match step.result {
            Err(e) => Step { pool: step.pool, result: Err(e) },
            Ok(n) => step.pool.intern(Pat::DatatypeValue(n)),
        }
    }

    /// A placeholder for definition `key`, noted as the pattern of that
    /// definition.
    pub open spec fn placeholder(self, key: usize) -> Step<PatId> {
        let step = self.intern(Pat::Placeholder(key));
        match step.result {
            Ok(id) => Step {
                pool: Pool { refs: step.pool.refs.insert(key, id), ..step.pool },
                result: Ok(id),
            },
            Err(e) => step,
        }
    }

    /// The pool in which the pattern of `target` stands in the place of the
    /// placeholder as well.
    pub open spec fn resolved(self, placeholder: PatId, target: PatId) -> Pool {
        if placeholder == target {
            self
        } else {
            Pool { nodes: self.nodes.update(placeholder.0 as int, self.node(target)), ..self }
        }
    }

    /// `self` is `before` with patterns and table entries added: nothing
    /// that was there changed.
    pub open spec fn grows(self, before: Pool) -> bool {
        &&& before.nodes.len() <= self.nodes.len()
        &&& forall|i: int| 0 <= i < before.nodes.len() ==> self.nodes[i] == before.nodes[i]
        &&& before.names.len() <= self.names.len()
        &&& forall|i: int| 0 <= i < before.names.len() ==> self.names[i] == before.names[i]
        &&& before.datatypes.len() <= self.datatypes.len()
        &&& forall|i: int|
            0 <= i < before.datatypes.len() ==> self.datatypes[i] == before.datatypes[i]
        &&& before.values.len() <= self.values.len()
        &&& forall|i: int| 0 <= i < before.values.len() ==> self.values[i] == before.values[i]
        &&& forall|k: usize| #[trigger]
            before.refs.contains_key(k) ==> self.refs.contains_key(k) && self.refs[k]
                == before.refs[k]
    }

    /// The step left the pool well formed and with every number that it
    /// held, and gave a number that the pool holds.
    pub open spec fn held(self, step: Step<PatId>) -> bool {
        &&& step.pool.wf()
        &&& self.nodes.len() <= step.pool.nodes.len()
        &&& step.result matches Ok(id) ==> step.pool.has(id)
    }

    /// The step left the pool well formed, only added to it and to its
    /// tables, and gave a number that the pool holds.
    pub open spec fn grown(self, step: Step<PatId>) -> bool {
        &&& step.pool.wf()
        &&& step.pool.grows(self)
        &&& step.result matches Ok(id) ==> step.pool.has(id)
    }

    /// The number of `p`: the one it was interned under, or a new one. The
    /// pool refuses when it already holds more than `MAX_PATTERNS` patterns.
    pub open spec fn intern(self, p: Pat) -> Step<PatId> {
        if self.nodes.len() > MAX_PATTERNS {
            Step { pool: self, result: Err(LimitError::PoolFull) }
        } else if self.index.contains_key(p) {
            Step { pool: self, result: Ok(self.index[p]) }
        } else {
            let id = PatId(self.nodes.len() as u32);
            Step {
                pool: Pool { nodes: self.nodes.push(p), index: self.index.insert(p, id), ..self },
                result: Ok(id),
            }
        }
    }

    pub open spec fn is_nullable(self, id: PatId) -> bool {
        self.node(id).nullable()
    }

    /// `Group(left, right)`, simplified: `NotAllowed` on either side gives
    /// `NotAllowed`, `Empty` on one side gives the other side.
    pub open spec fn group(self, left: PatId, right: PatId) -> Step<PatId> {
        if self.node(left) is NotAllowed || self.node(right) is NotAllowed {
            self.intern(Pat::NotAllowed)
        } else if self.node(left) is Empty {
            Step { pool: self, result: Ok(right) }
        } else if self.node(right) is Empty {
            Step { pool: self, result: Ok(left) }
        } else {
            self.intern(
                Pat::Group(left, right, self.is_nullable(left) && self.is_nullable(right)),
            )
        }
    }

    /// `Interleave(left, right)`, simplified as `group` is.
    pub open spec fn interleave(self, left: PatId, right: PatId) -> Step<PatId> {
        if self.node(left) is NotAllowed || self.node(right) is NotAllowed {
            self.intern(Pat::NotAllowed)
        } else if self.node(left) is Empty {
            Step { pool: self, result: Ok(right) }
        } else if self.node(right) is Empty {
            Step { pool: self, result: Ok(left) }
        } else {
            self.intern(
                Pat::Interleave(left, right, self.is_nullable(left) && self.is_nullable(right)),
            )
        }
    }

    /// `After(pa, pb)`, or `NotAllowed` when either is `NotAllowed`.
    pub open spec fn after(self, pa: PatId, pb: PatId) -> Step<PatId> {
        if self.node(pa) is NotAllowed || self.node(pb) is NotAllowed {
            self.intern(Pat::NotAllowed)
        } else {
            self.intern(Pat::After(pa, pb))
        }
    }

    pub open spec fn one_or_more(self, pattern: PatId) -> Step<PatId> {
        self.intern(Pat::OneOrMore(pattern, self.is_nullable(pattern)))
    }

    /// `Interleave(pattern, Text)`.
    pub open spec fn mixed(self, pattern: PatId) -> Step<PatId> {
        let text = self.intern(Pat::Text);
        match text.result {
            Ok(t) => text.pool.interleave(pattern, t),
            Err(e) => text,
        }
    }

    /// The leaves of the tree of choices under `id`: the patterns in it that
    /// are no `Choice`. `None` when the tree is deeper than `fuel`.
    pub open spec fn choice_leaves(self, id: PatId, fuel: nat) -> Option<Set<u32>>
        decreases fuel,
    {
        if fuel == 0 {
            None
        } else {
            match self.node(id) {
                Pat::Choice(l, r, _) => match self.choice_leaves(l, (fuel - 1) as nat) {
                    None => None,
                    Some(a) => match self.choice_leaves(r, (fuel - 1) as nat) {
                        None => None,
                        Some(b) => Some(a.union(b)),
                    },
                },
                _ => Some(set![id.0]),
            }
        }
    }

    /// The tree of choices under `id` without the leaves in `exclude`, or
    /// `None` when no leaf is left.
    pub open spec fn filter_choice(self, id: PatId, exclude: Set<u32>, fuel: nat) -> Step<
        Option<PatId>,
    >
        decreases fuel,
    {
        if fuel == 0 {
            Step { pool: self, result: Err(LimitError::TooDeep) }
        } else if exclude.contains(id.0) {
            Step { pool: self, result: Ok(None) }
        } else {
            match self.node(id) {
                Pat::Choice(l, r, _) => {
                    let left = self.filter_choice(l, exclude, (fuel - 1) as nat);
                    match left.result {
                        Err(e) => Step { pool: left.pool, result: Err(e) },
                        Ok(fl) => {
                            let right = left.pool.filter_choice(r, exclude, (fuel - 1) as nat);
                            match right.result {
                                Err(e) => Step { pool: right.pool, result: Err(e) },
                                Ok(fr) => match (fl, fr) {
                                    (None, None) => Step { pool: right.pool, result: Ok(None) },
                                    (Some(kept), None) => Step {
                                        pool: right.pool,
                                        result: Ok(Some(kept)),
                                    },
                                    (None, Some(kept)) => Step {
                                        pool: right.pool,
                                        result: Ok(Some(kept)),
                                    },
                                    (Some(a), Some(b)) => {
                                        let made = right.pool.intern(
                                            Pat::Choice(
                                                a,
                                                b,
                                                right.pool.is_nullable(a)
                                                    || right.pool.is_nullable(b),
                                            ),
                                        );
                                        match made.result {
                                            Ok(id) => Step { pool: made.pool, result: Ok(Some(id)) },
                                            Err(e) => Step { pool: made.pool, result: Err(e) },
                                        }
                                    },
                                },
                            }
                        },
                    }
                },
                _ => Step { pool: self, result: Ok(Some(id)) },
            }
        }
    }

    /// `Choice(left, right)`, simplified: `NotAllowed` on one side gives the
    /// other side, equal sides give one of them, and no leaf of `left`
    /// occurs again under `right`.
    pub open spec fn choice(self, left: PatId, right: PatId) -> Step<PatId> {
        if self.node(left) is NotAllowed {
            Step { pool: self, result: Ok(right) }
        } else if self.node(right) is NotAllowed {
            Step { pool: self, result: Ok(left) }
        } else if left == right {
            Step { pool: self, result: Ok(left) }
        } else {
            match self.choice_leaves(left, self.nodes.len() + 1) {
                None => Step { pool: self, result: Err(LimitError::TooDeep) },
                Some(leaves) => {
                    let filtered = self.filter_choice(right, leaves, self.nodes.len() + 1);
                    match filtered.result {
                        Err(e) => Step { pool: filtered.pool, result: Err(e) },
                        Ok(None) => Step { pool: filtered.pool, result: Ok(left) },
                        Ok(Some(kept)) => filtered.pool.intern(
                            Pat::Choice(
                                left,
                                kept,
                                filtered.pool.is_nullable(left) || filtered.pool.is_nullable(kept),
                            ),
                        ),
                    }
                },
            }
        }
    }

    /// The step left the pool well formed, only added to it, and gave a
    /// number that the pool holds.
    pub open spec fn sound_option(self, step: Step<Option<PatId>>) -> bool {
        &&& step.pool.wf()
        &&& step.pool.extends(self)
        &&& step.result matches Ok(Some(id)) ==> step.pool.has(id)
    }

    /// The step left the pool well formed, only added to it, and gave a
    /// number that the pool holds.
    pub open spec fn sound(self, step: Step<PatId>) -> bool {
        &&& step.pool.wf()
        &&& step.pool.extends(self)
        &&& step.result matches Ok(id) ==> step.pool.has(id)
    }
}

/// The low half of a key: two numbers side by side.
pub open spec fn pair_bits(a: u32, b: u32) -> u128 {
    ((a as u128) << 32) | (b as u128)
}

/// A key: the variant, its flag, and what it holds.
pub open spec fn key_bits(tag: u8, flag: bool, low: u128) -> u128 {
    ((tag as u128) << 72) | ((if flag {
        1u128
    } else {
        0u128
    }) << 64) | low
}

/// The key under which a pattern is looked up: no two patterns share one.
pub open spec fn key_of(p: Pat) -> u128 {
    match p {
        Pat::Choice(a, b, n) => key_bits(1, n, pair_bits(a.0, b.0)),
        Pat::Interleave(a, b, n) => key_bits(2, n, pair_bits(a.0, b.0)),
        Pat::Group(a, b, n) => key_bits(3, n, pair_bits(a.0, b.0)),
        Pat::OneOrMore(a, n) => key_bits(4, n, pair_bits(a.0, 0)),
        Pat::Empty => key_bits(5, false, 0),
        Pat::Text => key_bits(6, false, 0),
        Pat::NotAllowed => key_bits(7, false, 0),
        Pat::Attribute(n, a) => key_bits(8, false, pair_bits(n, a.0)),
        Pat::Element(n, a) => key_bits(9, false, pair_bits(n, a.0)),
        Pat::Datatype(d) => key_bits(10, false, pair_bits(d, 0)),
        Pat::DatatypeValue(v) => key_bits(11, false, pair_bits(v, 0)),
        Pat::DatatypeExcept(d, a) => key_bits(12, false, pair_bits(d, a.0)),
        Pat::List(a) => key_bits(13, false, pair_bits(a.0, 0)),
        Pat::Placeholder(k) => key_bits(14, false, k as u128),
        Pat::After(a, b) => key_bits(15, false, pair_bits(a.0, b.0)),
    }
}

pub proof fn lemma_pair_bits(a: u32, b: u32, c: u32, d: u32)
    ensures
        pair_bits(a, b) <= 0xffff_ffff_ffff_ffff,
        pair_bits(a, b) == pair_bits(c, d) ==> a == c && b == d,
{
    assert((((a as u128) << 32) | (b as u128)) <= 0xffff_ffff_ffff_ffffu128) by (bit_vector);
    assert((((a as u128) << 32) | (b as u128)) == (((c as u128) << 32) | (d as u128)) ==> a == c
        && b == d) by (bit_vector);
}

pub proof fn lemma_key_bits(t1: u8, f1: bool, l1: u128, t2: u8, f2: bool, l2: u128)
    requires
        l1 <= 0xffff_ffff_ffff_ffff,
        l2 <= 0xffff_ffff_ffff_ffff,
        key_bits(t1, f1, l1) == key_bits(t2, f2, l2),
    ensures
        t1 == t2,
        f1 == f2,
        l1 == l2,
{
    let x1: u128 = if f1 {
        1
    } else {
        0
    };
    let x2: u128 = if f2 {
        1
    } else {
        0
    };
    assert(l1 <= 0xffff_ffff_ffff_ffffu128 && l2 <= 0xffff_ffff_ffff_ffffu128 && x1 <= 1 && x2 <= 1
        && (((t1 as u128) << 72) | (x1 << 64) | l1) == (((t2 as u128) << 72) | (x2 << 64) | l2)
        ==> t1 == t2 && x1 == x2 && l1 == l2) by (bit_vector);
}

/// The tag, the flag and the low half of the key of a pattern.
pub open spec fn key_parts(p: Pat) -> (u8, bool, u128) {
    match p {
        Pat::Choice(a, b, n) => (1, n, pair_bits(a.0, b.0)),
        Pat::Interleave(a, b, n) => (2, n, pair_bits(a.0, b.0)),
        Pat::Group(a, b, n) => (3, n, pair_bits(a.0, b.0)),
        Pat::OneOrMore(a, n) => (4, n, pair_bits(a.0, 0)),
        Pat::Empty => (5, false, 0),
        Pat::Text => (6, false, 0),
        Pat::NotAllowed => (7, false, 0),
        Pat::Attribute(n, a) => (8, false, pair_bits(n, a.0)),
        Pat::Element(n, a) => (9, false, pair_bits(n, a.0)),
        Pat::Datatype(d) => (10, false, pair_bits(d, 0)),
        Pat::DatatypeValue(v) => (11, false, pair_bits(v, 0)),
        Pat::DatatypeExcept(d, a) => (12, false, pair_bits(d, a.0)),
        Pat::List(a) => (13, false, pair_bits(a.0, 0)),
        Pat::Placeholder(k) => (14, false, k as u128),
        Pat::After(a, b) => (15, false, pair_bits(a.0, b.0)),
    }
}

pub proof fn lemma_key_parts(p: Pat)
    ensures
        key_of(p) == key_bits(key_parts(p).0, key_parts(p).1, key_parts(p).2),
        key_parts(p).2 <= 0xffff_ffff_ffff_ffff,
{
    lemma_pair_bits(0, 0, 0, 0);
    match p {
        Pat::Choice(a, b, _) => lemma_pair_bits(a.0, b.0, 0, 0),
        Pat::Interleave(a, b, _) => lemma_pair_bits(a.0, b.0, 0, 0),
        Pat::Group(a, b, _) => lemma_pair_bits(a.0, b.0, 0, 0),
        Pat::OneOrMore(a, _) => lemma_pair_bits(a.0, 0, 0, 0),
        Pat::Attribute(n, a) => lemma_pair_bits(n, a.0, 0, 0),
        Pat::Element(n, a) => lemma_pair_bits(n, a.0, 0, 0),
        Pat::Datatype(d) => lemma_pair_bits(d, 0, 0, 0),
        Pat::DatatypeValue(v) => lemma_pair_bits(v, 0, 0, 0),
        Pat::DatatypeExcept(d, a) => lemma_pair_bits(d, a.0, 0, 0),
        Pat::List(a) => lemma_pair_bits(a.0, 0, 0, 0),
        Pat::After(a, b) => lemma_pair_bits(a.0, b.0, 0, 0),
        _ => {},
    }
}

/// Two patterns with one key are one pattern.
pub proof fn lemma_key_injective(p: Pat, q: Pat)
    requires
        key_of(p) == key_of(q),
    ensures
        p == q,
{
    lemma_key_parts(p);
    lemma_key_parts(q);
    let (t1, f1, l1) = key_parts(p);
    let (t2, f2, l2) = key_parts(q);
    lemma_key_bits(t1, f1, l1, t2, f2, l2);
    match (p, q) {
        (Pat::Choice(a, b, _), Pat::Choice(c, d, _)) => lemma_pair_bits(a.0, b.0, c.0, d.0),
        (Pat::Interleave(a, b, _), Pat::Interleave(c, d, _)) => lemma_pair_bits(
            a.0,
            b.0,
            c.0,
            d.0,
        ),
        (Pat::Group(a, b, _), Pat::Group(c, d, _)) => lemma_pair_bits(a.0, b.0, c.0, d.0),
        (Pat::OneOrMore(a, _), Pat::OneOrMore(c, _)) => lemma_pair_bits(a.0, 0, c.0, 0),
        (Pat::Attribute(a, b), Pat::Attribute(c, d)) => lemma_pair_bits(a, b.0, c, d.0),
        (Pat::Element(a, b), Pat::Element(c, d)) => lemma_pair_bits(a, b.0, c, d.0),
        (Pat::Datatype(a), Pat::Datatype(c)) => lemma_pair_bits(a, 0, c, 0),
        (Pat::DatatypeValue(a), Pat::DatatypeValue(c)) => lemma_pair_bits(a, 0, c, 0),
        (Pat::DatatypeExcept(a, b), Pat::DatatypeExcept(c, d)) => lemma_pair_bits(
            a,
            b.0,
            c,
            d.0,
        ),
        (Pat::List(a), Pat::List(c)) => lemma_pair_bits(a.0, 0, c.0, 0),
        (Pat::After(a, b), Pat::After(c, d)) => lemma_pair_bits(a.0, b.0, c.0, d.0),
        _ => {},
    }
}

fn pair_key(a: u32, b: u32) -> (r: u128)
    ensures
        r == pair_bits(a, b),
{
    ((a as u128) << 32) | (b as u128)
}

fn make_key(tag: u8, flag: bool, low: u128) -> (r: u128)
    ensures
        r == key_bits(tag, flag, low),
{
    let bit: u128 = if flag {
        1
    } else {
        0
    };
    ((tag as u128) << 72) | (bit << 64) | low
}

/// The key under which a pattern is looked up.
fn key_for(p: &Pat) -> (r: u128)
    ensures
        r == key_of(*p),
{
    match p {
        Pat::Choice(a, b, n) => make_key(1, *n, pair_key(a.0, b.0)),
        Pat::Interleave(a, b, n) => make_key(2, *n, pair_key(a.0, b.0)),
        Pat::Group(a, b, n) => make_key(3, *n, pair_key(a.0, b.0)),
        Pat::OneOrMore(a, n) => make_key(4, *n, pair_key(a.0, 0)),
        Pat::Empty => make_key(5, false, 0),
        Pat::Text => make_key(6, false, 0),
        Pat::NotAllowed => make_key(7, false, 0),
        Pat::Attribute(n, a) => make_key(8, false, pair_key(*n, a.0)),
        Pat::Element(n, a) => make_key(9, false, pair_key(*n, a.0)),
        Pat::Datatype(d) => make_key(10, false, pair_key(*d, 0)),
        Pat::DatatypeValue(v) => make_key(11, false, pair_key(*v, 0)),
        Pat::DatatypeExcept(d, a) => make_key(12, false, pair_key(*d, a.0)),
        Pat::List(a) => make_key(13, false, pair_key(a.0, 0)),
        Pat::Placeholder(k) => make_key(14, false, *k as u128),
        Pat::After(a, b) => make_key(15, false, pair_key(a.0, b.0)),
    }
}

#[verifier::external_type_specification]
#[verifier::external_body]
pub struct ExFnvHasher(FnvHasher);

#[verifier::external_type_specification]
#[verifier::external_body]
#[verifier::reject_recursive_types(H)]
pub struct ExBuildHasherDefault<H>(BuildHasherDefault<H>);

/// `FnvHashSet::default()`: a set that holds nothing.
#[verifier::external_body]
fn leaf_set_new() -> (s: FnvHashSet<u32>)
    ensures
        s@ == Set::<u32>::empty(),
{
    FnvHashSet::default()
}

/// `HashSet::insert`: the set holds `id` beside what it held.
#[verifier::external_body]
fn leaf_set_insert(s: &mut FnvHashSet<u32>, id: u32)
    ensures
        final(s)@ == old(s)@.insert(id),
{
    s.insert(id);
}

/// `HashSet::contains`: whether the set holds `id`.
#[verifier::external_body]
fn leaf_set_contains(s: &FnvHashSet<u32>, id: u32) -> (r: bool)
    ensures
        r == s@.contains(id),
{
    s.contains(&id)
}

/// The pattern pool.
pub struct Schema<'a> {
    patterns: Vec<Pat>,
    memo: HashMap<u128, u32>,
    refs: HashMap<usize, PatId>,
    names: Vec<&'a NameClass>,
    datatypes: Vec<&'a Datatypes>,
    values: Vec<&'a DatatypeValues>,
}

impl<'a> View for Schema<'a> {
    type V = Pool;

    closed spec fn view(&self) -> Pool {
        Pool {
            nodes: self.patterns@,
            index: Map::new(
                |p: Pat| self.memo@.contains_key(key_of(p)),
                |p: Pat| PatId(self.memo@[key_of(p)]),
            ),
            refs: self.refs@,
            names: Seq::new(self.names@.len(), |i: int| self.names@[i]@),
            datatypes: Seq::new(self.datatypes@.len(), |i: int| *self.datatypes@[i]),
            values: Seq::new(self.values@.len(), |i: int| *self.values@[i]),
        }
    }
}

impl<'a> Schema<'a> {
    /// The pool is within its limit and closed.
    pub open spec fn wf(&self) -> bool {
        self@.wf()
    }

    /// A pool that holds nothing.
    pub fn new() -> (r: Schema<'a>)
        ensures
            r@ == Pool::empty(),
            r.wf(),
    {
        let r = Schema {
            patterns: Vec::new(),
            memo: HashMap::new(),
            refs: HashMap::new(),
            names: Vec::new(),
            datatypes: Vec::new(),
            values: Vec::new(),
        };
        assert(r@.index =~= Map::empty());
        assert(r@.names =~= Seq::empty());
        assert(r@.datatypes =~= Seq::empty());
        assert(r@.values =~= Seq::empty());
        r
    }

    /// The number of patterns in the pool.
    pub fn len(&self) -> (r: usize)
        ensures
            r == self@.nodes.len(),
    {
        self.patterns.len()
    }

    /// The number of `p`: the one it was interned under, or a new one.
    pub fn push(&mut self, p: Pat) -> (r: Result<PatId, LimitError>)
        requires
            old(self).wf(),
            old(self)@.pat_ok(p),
        ensures
            (Step { pool: final(self)@, result: r }) == old(self)@.intern(p),
            old(self)@.sound(old(self)@.intern(p)),
    {
        // Guard against exponential blowup in interleave/choice derivatives.
        if self.patterns.len() > MAX_PATTERNS {
            return Err(LimitError::PoolFull);
        }
        let key = key_for(&p);
        let found = match self.memo.get(&key) {
            Some(id) => Some(*id),
            None => None,
        };
        if let Some(id) = found {
            Ok(PatId(id))
        } else {
            let id = self.patterns.len() as u32;
            let ghost before = self@;
            self.memo.insert(key, id);
            self.patterns.push(p);
            proof {
                assert forall|q: Pat| #[trigger] key_of(q) == key implies q == p by {
                    lemma_key_injective(p, q);
                }
                assert(self@.index =~= before.index.insert(p, PatId(id)));
                assert(self@.names =~= before.names);
                assert(self@.datatypes =~= before.datatypes);
                assert(self@.values =~= before.values);
                let after = before.intern(p).pool;
                lemma_intern_registered(before, p);
                assert forall|i: int| 0 <= i < after.nodes.len() implies after.pat_ok(
                    #[trigger] after.nodes[i],
                ) by {
                    if i < before.nodes.len() {
                        assert(before.pat_ok(before.nodes[i]));
                    }
                }
            }
            Ok(PatId(id))
        }
    }

    /// The pattern with the number `id`.
    pub fn patt(&self, id: PatId) -> (r: Pat)
        requires
            self@.has(id),
        ensures
            r == self@.node(id),
    {
        self.patterns[id.0 as usize]
    }

    /// Check nullability without cloning the pattern.
    pub fn nullable(&self, id: PatId) -> (r: bool)
        requires
            self@.has(id),
        ensures
            r == self@.is_nullable(id),
    {
        self.patterns[id.0 as usize].is_nullable()
    }

    /// Check if a pattern is NotAllowed without cloning.
    pub fn is_not_allowed(&self, id: PatId) -> (r: bool)
        requires
            self@.has(id),
        ensures
            r == (self@.node(id) is NotAllowed),
    {
        matches!(self.patterns[id.0 as usize], Pat::NotAllowed)
    }

    /// Check if a pattern is Empty without cloning.
    pub fn is_empty(&self, id: PatId) -> (r: bool)
        requires
            self@.has(id),
        ensures
            r == (self@.node(id) is Empty),
    {
        matches!(self.patterns[id.0 as usize], Pat::Empty)
    }

    pub fn empty(&mut self) -> (r: Result<PatId, LimitError>)
        requires
            old(self).wf(),
        ensures
            (Step { pool: final(self)@, result: r }) == old(self)@.intern(Pat::Empty),
            old(self)@.sound(old(self)@.intern(Pat::Empty)),
    {
        self.push(Pat::Empty)
    }

    pub fn text(&mut self) -> (r: Result<PatId, LimitError>)
        requires
            old(self).wf(),
        ensures
            (Step { pool: final(self)@, result: r }) == old(self)@.intern(Pat::Text),
            old(self)@.sound(old(self)@.intern(Pat::Text)),
    {
        self.push(Pat::Text)
    }

    pub fn not_allowed(&mut self) -> (r: Result<PatId, LimitError>)
        requires
            old(self).wf(),
        ensures
            (Step { pool: final(self)@, result: r }) == old(self)@.intern(Pat::NotAllowed),
            old(self)@.sound(old(self)@.intern(Pat::NotAllowed)),
    {
        self.push(Pat::NotAllowed)
    }

    pub fn group(&mut self, left: PatId, right: PatId) -> (r: Result<PatId, LimitError>)
        requires
            old(self).wf(),
            old(self)@.has(left),
            old(self)@.has(right),
        ensures
            (Step { pool: final(self)@, result: r }) == old(self)@.group(left, right),
            old(self)@.sound(old(self)@.group(left, right)),
    {
        match (self.patt(left), self.patt(right)) {
            (Pat::NotAllowed, _) => self.not_allowed(),
            (_, Pat::NotAllowed) => self.not_allowed(),
            (Pat::Empty, _) => Ok(right),
            (_, Pat::Empty) => Ok(left),
            (l, r) => self.push(Pat::Group(left, right, l.is_nullable() && r.is_nullable())),
        }
    }

    pub fn interleave(&mut self, left: PatId, right: PatId) -> (r: Result<PatId, LimitError>)
        requires
            old(self).wf(),
            old(self)@.has(left),
            old(self)@.has(right),
        ensures
            (Step { pool: final(self)@, result: r }) == old(self)@.interleave(left, right),
            old(self)@.sound(old(self)@.interleave(left, right)),
    {
        match (self.patt(left), self.patt(right)) {
            (Pat::NotAllowed, _) => self.not_allowed(),
            (_, Pat::NotAllowed) => self.not_allowed(),
            (Pat::Empty, _) => Ok(right),
            (_, Pat::Empty) => Ok(left),
            (l, r) => self.push(
                Pat::Interleave(left, right, l.is_nullable() && r.is_nullable()),
            ),
        }
    }

    pub fn after(&mut self, pa: PatId, pb: PatId) -> (r: Result<PatId, LimitError>)
        requires
            old(self).wf(),
            old(self)@.has(pa),
            old(self)@.has(pb),
        ensures
            (Step { pool: final(self)@, result: r }) == old(self)@.after(pa, pb),
            old(self)@.sound(old(self)@.after(pa, pb)),
    {
        match (self.patt(pa), self.patt(pb)) {
            (_, Pat::NotAllowed) => self.not_allowed(),
            (Pat::NotAllowed, _) => self.not_allowed(),
            (_, _) => self.push(Pat::After(pa, pb)),
        }
    }

    pub fn one_or_more(&mut self, pattern: PatId) -> (r: Result<PatId, LimitError>)
        requires
            old(self).wf(),
            old(self)@.has(pattern),
        ensures
            (Step { pool: final(self)@, result: r }) == old(self)@.one_or_more(pattern),
            old(self)@.sound(old(self)@.one_or_more(pattern)),
    {
        let p = self.patt(pattern);
        self.push(Pat::OneOrMore(pattern, p.is_nullable()))
    }

    pub fn list(&mut self, p: PatId) -> (r: Result<PatId, LimitError>)
        requires
            old(self).wf(),
            old(self)@.has(p),
        ensures
            (Step { pool: final(self)@, result: r }) == old(self)@.intern(Pat::List(p)),
            old(self)@.sound(old(self)@.intern(Pat::List(p))),
    {
        self.push(Pat::List(p))
    }
}

/// A name class that a longer table holds first at some place is held
/// there by every longer table.
pub proof fn lemma_find_name_prefix(names: Seq<NameSet>, nc: NameSet, k: int)
    requires
        0 <= k <= names.len(),
        Pool::find_name(names.take(k), nc) is Some,
    ensures
        Pool::find_name(names, nc) == Pool::find_name(names.take(k), nc),
    decreases names.len() - k,
{
    if k < names.len() {
        assert(names.take(k + 1).drop_last() == names.take(k));
        lemma_find_name_prefix(names, nc, k + 1);
    } else {
        assert(names.take(k) == names);
    }
}

/// Interning keeps every pattern found under its number.
pub proof fn lemma_intern_registered(pool: Pool, p: Pat)
    requires
        pool.wf(),
    ensures
        pool.intern(p).pool.registered(),
{
    let after = pool.intern(p).pool;
    assert forall|i: int| 0 <= i < after.nodes.len() implies after.index.contains_key(
        #[trigger] after.nodes[i],
    ) && (after.index[after.nodes[i]].0 == i || after.was_placeholder(i)) by {
        if i < pool.nodes.len() {
            assert(pool.index.contains_key(pool.nodes[i]));
            if pool.index[pool.nodes[i]].0 != i {
                let k = choose|k: usize| #[trigger]
                    pool.index.contains_key(Pat::Placeholder(k)) && pool.index[Pat::Placeholder(
                        k,
                    )].0 == i;
                assert(after.index.contains_key(Pat::Placeholder(k)));
            }
        }
    }
}

/// A datatype that a shorter table holds is held at the same place by every
/// longer table.
pub proof fn lemma_find_datatype_prefix(table: Seq<Datatypes>, dt: Datatypes, k: int)
    requires
        0 <= k <= table.len(),
        Pool::find_datatype(table.take(k), dt) is Some,
    ensures
        Pool::find_datatype(table, dt) == Pool::find_datatype(table.take(k), dt),
    decreases table.len() - k,
{
    if k < table.len() {
        assert(table.take(k + 1).drop_last() == table.take(k));
        lemma_find_datatype_prefix(table, dt, k + 1);
    } else {
        assert(table.take(k) == table);
    }
}

/// A value that a shorter table holds is held at the same place by every
/// longer table.
pub proof fn lemma_find_value_prefix(table: Seq<DatatypeValues>, v: DatatypeValues, k: int)
    requires
        0 <= k <= table.len(),
        Pool::find_value(table.take(k), v) is Some,
    ensures
        Pool::find_value(table, v) == Pool::find_value(table.take(k), v),
    decreases table.len() - k,
{
    if k < table.len() {
        assert(table.take(k + 1).drop_last() == table.take(k));
        lemma_find_value_prefix(table, v, k + 1);
    } else {
        assert(table.take(k) == table);
    }
}

impl<'a> Schema<'a> {
    fn collect_leaves(&self, id: PatId, leaves: &mut FnvHashSet<u32>, fuel: usize) -> (r: bool)
        requires
            self.wf(),
            self@.has(id),
        ensures
            match self@.choice_leaves(id, fuel as nat) {
                Some(s) => r && final(leaves)@ == old(leaves)@.union(s),
                None => !r,
            },
        decreases fuel,
    {
        if fuel == 0 {
            return false;
        }
        match self.patt(id) {
            Pat::Choice(l, r, _) => {
                assert(self@.pat_ok(self@.nodes[id.0 as int]));
                if !self.collect_leaves(l, leaves, fuel - 1) {
                    return false;
                }
                if !self.collect_leaves(r, leaves, fuel - 1) {
                    return false;
                }
                proof {
                    let a = self@.choice_leaves(l, (fuel - 1) as nat)->0;
                    let b = self@.choice_leaves(r, (fuel - 1) as nat)->0;
                    assert(old(leaves)@.union(a).union(b) =~= old(leaves)@.union(a.union(b)));
                }
                true
            },
            _ => {
                leaf_set_insert(leaves, id.0);
                assert(old(leaves)@.insert(id.0) =~= old(leaves)@.union(set![id.0]));
                true
            },
        }
    }

    /// Walk a choice tree and remove any leaf whose PatId is in `exclude`.
    /// Returns `None` if every leaf was removed.
    fn filter_choice(&mut self, id: PatId, exclude: &FnvHashSet<u32>, fuel: usize) -> (r: Result<
        Option<PatId>,
        LimitError,
    >)
        requires
            old(self).wf(),
            old(self)@.has(id),
        ensures
            (Step { pool: final(self)@, result: r }) == old(self)@.filter_choice(
                id,
                exclude@,
                fuel as nat,
            ),
            old(self)@.sound_option(old(self)@.filter_choice(id, exclude@, fuel as nat)),
        decreases fuel,
    {
        if fuel == 0 {
            return Err(LimitError::TooDeep);
        }
        if leaf_set_contains(exclude, id.0) {
            return Ok(None);
        }
        match self.patt(id) {
            Pat::Choice(l, r, _) => {
                assert(self@.pat_ok(self@.nodes[id.0 as int]));
                let fl = self.filter_choice(l, exclude, fuel - 1)?;
                let fr = self.filter_choice(r, exclude, fuel - 1)?;
                match (fl, fr) {
                    (None, None) => Ok(None),
                    (Some(kept), None) => Ok(Some(kept)),
                    (None, Some(kept)) => Ok(Some(kept)),
                    (Some(fl), Some(fr)) => {
                        let nullable = self.nullable(fl) || self.nullable(fr);
                        let id = self.push(Pat::Choice(fl, fr, nullable))?;
                        Ok(Some(id))
                    },
                }
            },
            _ => Ok(Some(id)),  // non-Choice leaf, not excluded
        }
    }

    pub fn choice(&mut self, left: PatId, right: PatId) -> (r: Result<PatId, LimitError>)
        requires
            old(self).wf(),
            old(self)@.has(left),
            old(self)@.has(right),
        ensures
            (Step { pool: final(self)@, result: r }) == old(self)@.choice(left, right),
            old(self)@.sound(old(self)@.choice(left, right)),
    {
        // Eliminate redundant choice-leaves to avoid exponential blowup.
        if self.is_not_allowed(left) {
            return Ok(right);
        }
        if self.is_not_allowed(right) {
            return Ok(left);
        }
        if left.0 == right.0 {
            return Ok(left);
        }
        let fuel = self.patterns.len() + 1;
        let mut left_leaves = leaf_set_new();
        if !self.collect_leaves(left, &mut left_leaves, fuel) {
            return Err(LimitError::TooDeep);
        }
        proof {
            let leaves = self@.choice_leaves(left, fuel as nat)->0;
            assert(Set::<u32>::empty().union(leaves) =~= leaves);
        }
        match self.filter_choice(right, &left_leaves, fuel)? {
            None => Ok(left),  // every right leaf was a duplicate
            Some(filtered_right) => {
                let nullable = self.nullable(left) || self.nullable(filtered_right);
                self.push(Pat::Choice(left, filtered_right, nullable))
            },
        }
    }

    pub fn mixed(&mut self, pattern: PatId) -> (r: Result<PatId, LimitError>)
        requires
            old(self).wf(),
            old(self)@.has(pattern),
        ensures
            (Step { pool: final(self)@, result: r }) == old(self)@.mixed(pattern),
            old(self)@.sound(old(self)@.mixed(pattern)),
    {
        let text = self.text()?;
        self.interleave(pattern, text)
    }

    /// The number of the name class `name` in the table: that of the first
    /// equal one, or a new one.
    fn intern_name(&mut self, name: &'a NameClass) -> (r: Result<u32, LimitError>)
        requires
            old(self).wf(),
        ensures
            (Step { pool: final(self)@, result: r }) == old(self)@.with_name(name@),
            final(self).wf(),
            final(self)@.grows(old(self)@),
            r matches Ok(n) ==> n < final(self)@.names.len(),
    {
        let mut i: usize = 0;
        assert(self@.names.take(0) =~= Seq::empty());
        while i < self.names.len()
            invariant
                i <= self.names.len(),
                *self == *old(self),
                self.wf(),
                Pool::find_name(self@.names.take(i as int), name@) is None,
            decreases self.names.len() - i,
        {
            proof {
                assert(self@.names.take(i + 1).drop_last() =~= self@.names.take(i as int));
                assert(self@.names.take(i + 1).last() == self.names@[i as int]@);
            }
            if same_name_class(self.names[i], name) {
                proof {
                    lemma_find_name_prefix(self@.names, name@, i + 1);
                }
                assert(self@.names.len() == self.names@.len());
                return Ok(i as u32);
            }
            i += 1;
        }
        assert(self@.names.take(i as int) =~= self@.names);
        if self.names.len() >= u32::MAX as usize {
            return Err(LimitError::PoolFull);
        }
        let n = self.names.len() as u32;
        let ghost before = self@;
        self.names.push(name);
        proof {
            assert(self@.names =~= before.names.push(name@));
            assert(self@.index =~= before.index);
            assert(self@.datatypes =~= before.datatypes);
            assert(self@.values =~= before.values);
            assert forall|i: int| 0 <= i < self@.nodes.len() implies self@.pat_ok(
                #[trigger] self@.nodes[i],
            ) by {
                assert(before.pat_ok(before.nodes[i]));
            }
        }
        Ok(n)
    }

    pub fn attribute(&mut self, name: &'a NameClass, p: PatId) -> (r: Result<PatId, LimitError>)
        requires
            old(self).wf(),
            old(self)@.has(p),
        ensures
            (Step { pool: final(self)@, result: r }) == old(self)@.named(false, name@, p),
            old(self)@.grown(old(self)@.named(false, name@, p)),
    {
        let n = self.intern_name(name)?;
        self.push(Pat::Attribute(n, p))
    }

    pub fn element(&mut self, name: &'a NameClass, p: PatId) -> (r: Result<PatId, LimitError>)
        requires
            old(self).wf(),
            old(self)@.has(p),
        ensures
            (Step { pool: final(self)@, result: r }) == old(self)@.named(true, name@, p),
            old(self)@.grown(old(self)@.named(true, name@, p)),
    {
        let n = self.intern_name(name)?;
        self.push(Pat::Element(n, p))
    }

    /// The number of the value `v` in the table: that of the first value
    /// made of the same, or a new one.
    fn intern_value(&mut self, v: &'a DatatypeValues) -> (r: Result<u32, LimitError>)
        requires
            old(self).wf(),
        ensures
            (Step { pool: final(self)@, result: r }) == old(self)@.with_value(*v),
            final(self).wf(),
            final(self)@.grows(old(self)@),
            r matches Ok(n) ==> n < final(self)@.values.len(),
    {
        let mut i: usize = 0;
        assert(self@.values.take(0) =~= Seq::empty());
        while i < self.values.len()
            invariant
                i <= self.values.len(),
                *self == *old(self),
                self.wf(),
                Pool::find_value(self@.values.take(i as int), *v) is None,
            decreases self.values.len() - i,
        {
            proof {
                assert(self@.values.take(i + 1).drop_last() =~= self@.values.take(i as int));
                assert(self@.values.take(i + 1).last() == *self.values@[i as int]);
            }
            if self.values[i].same(v) {
                proof {
                    lemma_find_value_prefix(self@.values, *v, i + 1);
                }
                assert(self@.values.len() == self.values@.len());
                return Ok(i as u32);
            }
            i += 1;
        }
        assert(self@.values.take(i as int) =~= self@.values);
        if self.values.len() >= u32::MAX as usize {
            return Err(LimitError::PoolFull);
        }
        let n = self.values.len() as u32;
        let ghost before = self@;
        self.values.push(v);
        proof {
            assert(self@.values =~= before.values.push(*v));
            assert(self@.index =~= before.index);
            assert(self@.datatypes =~= before.datatypes);
            assert(self@.names =~= before.names);
            assert forall|i: int| 0 <= i < self@.nodes.len() implies self@.pat_ok(
                #[trigger] self@.nodes[i],
            ) by {
                assert(before.pat_ok(before.nodes[i]));
            }
        }
        Ok(n)
    }

    /// The number of the datatype `dt` in the table: that of the first
    /// datatype made of the same, or a new one.
    fn intern_datatype(&mut self, dt: &'a Datatypes) -> (r: Result<u32, LimitError>)
        requires
            old(self).wf(),
            dt.wf(),
        ensures
            (Step { pool: final(self)@, result: r }) == old(self)@.with_datatype(*dt),
            final(self).wf(),
            final(self)@.grows(old(self)@),
            r matches Ok(n) ==> n < final(self)@.datatypes.len(),
    {
        let mut i: usize = 0;
        assert(self@.datatypes.take(0) =~= Seq::empty());
        while i < self.datatypes.len()
            invariant
                i <= self.datatypes.len(),
                *self == *old(self),
                self.wf(),
                Pool::find_datatype(self@.datatypes.take(i as int), *dt) is None,
            decreases self.datatypes.len() - i,
        {
            proof {
                assert(self@.datatypes.take(i + 1).drop_last() =~= self@.datatypes.take(i as int));
                assert(self@.datatypes.take(i + 1).last() == *self.datatypes@[i as int]);
            }
            if self.datatypes[i].same(dt) {
                proof {
                    lemma_find_datatype_prefix(self@.datatypes, *dt, i + 1);
                }
                assert(self@.datatypes.len() == self.datatypes@.len());
                return Ok(i as u32);
            }
            i += 1;
        }
        assert(self@.datatypes.take(i as int) =~= self@.datatypes);
        if self.datatypes.len() >= u32::MAX as usize {
            return Err(LimitError::PoolFull);
        }
        let d = self.datatypes.len() as u32;
        let ghost before = self@;
        self.datatypes.push(dt);
        proof {
            assert(self@.datatypes =~= before.datatypes.push(*dt));
            assert(self@.index =~= before.index);
            assert(self@.values =~= before.values);
            assert(self@.names =~= before.names);
            assert forall|i: int| 0 <= i < self@.nodes.len() implies self@.pat_ok(
                #[trigger] self@.nodes[i],
            ) by {
                assert(before.pat_ok(before.nodes[i]));
            }
        }
        Ok(d)
    }

    /// A pattern for the value `dt`.
    pub fn datatype_value(&mut self, dt: &'a DatatypeValues) -> (r: Result<PatId, LimitError>)
        requires
            old(self).wf(),
        ensures
            (Step { pool: final(self)@, result: r }) == old(self)@.datatype_valued(*dt),
            old(self)@.grown(old(self)@.datatype_valued(*dt)),
    {
        let n = self.intern_value(dt)?;
        self.push(Pat::DatatypeValue(n))
    }

    /// A pattern for the datatype `dt`, without what `except` matches.
    pub fn datatype_name(&mut self, dt: &'a Datatypes, except: Option<PatId>) -> (r: Result<
        PatId,
        LimitError,
    >)
        requires
            old(self).wf(),
            dt.wf(),
            except matches Some(e) ==> old(self)@.has(e),
        ensures
            (Step { pool: final(self)@, result: r }) == old(self)@.datatype_named(*dt, except),
            old(self)@.grown(old(self)@.datatype_named(*dt, except)),
    {
        let d = self.intern_datatype(dt)?;
        if let Some(except) = except {
            self.push(Pat::DatatypeExcept(d, except))
        } else {
            self.push(Pat::Datatype(d))
        }
    }

    /// The placeholder of definition `p`, if it has one.
    pub fn get_ref(&self, p: usize) -> (r: Option<PatId>)
        ensures
            r == (if self@.refs.contains_key(p) {
                Some(self@.refs[p])
            } else {
                None
            }),
    {
        match self.refs.get(&p) {
            Some(id) => Some(*id),
            None => None,
        }
    }

    /// A placeholder for definition `p`.
    pub fn ref_placeholder(&mut self, p: usize, _name: &str) -> (r: Result<PatId, LimitError>)
        requires
            old(self).wf(),
        ensures
            (Step { pool: final(self)@, result: r }) == old(self)@.placeholder(p),
            final(self).wf(),
            final(self)@.grows(old(self)@) || old(self)@.refs.contains_key(p),
            r matches Ok(id) ==> final(self)@.has(id),
    {
        let pl = Pat::Placeholder(p);
        let id = self.push(pl)?;
        let ghost before = self@;
        self.refs.insert(p, id);
        proof {
            assert(self@.index =~= before.index);
            assert(self@.values =~= before.values);
            assert(self@.names =~= before.names);
            assert(self@.datatypes =~= before.datatypes);
            assert(self@.refs == before.refs.insert(p, id));
            assert forall|i: int| 0 <= i < self@.nodes.len() implies self@.pat_ok(
                #[trigger] self@.nodes[i],
            ) by {
                assert(before.pat_ok(before.nodes[i]));
            }
            assert forall|k: usize| #[trigger] self@.refs.contains_key(k) implies self@.has(
                self@.refs[k],
            ) by {
                if k != p {
                    assert(before.refs.contains_key(k));
                }
            }
            assert forall|q: Pat| #[trigger] self@.index.contains_key(q) implies self@.has(
                self@.index[q],
            ) by {
                assert(before.index.contains_key(q));
            }
        }
        Ok(id)
    }

    /// Puts the pattern of `id` in the place of the placeholder as well.
    pub fn resolve_ref(&mut self, placeholder_id: PatId, id: PatId, _name: &str)
        requires
            old(self).wf(),
            old(self)@.has(placeholder_id),
            old(self)@.has(id),
            placeholder_id != id ==> old(self)@.node(placeholder_id) is Placeholder && !(old(
                self,
            )@.node(id) is Placeholder),
        ensures
            final(self)@ == old(self)@.resolved(placeholder_id, id),
            final(self).wf(),
    {
        if placeholder_id.0 == id.0 {
            // we already resolved this placeholder
            return ;
        }
        let target = self.patt(id);
        let ghost before = self@;
        assert(before.pat_ok(before.nodes[id.0 as int]));
        self.patterns.set(placeholder_id.0 as usize, target);
        proof {
            assert(self@.index =~= before.index);
            assert(self@.values =~= before.values);
            assert(self@.names =~= before.names);
            assert(self@.datatypes =~= before.datatypes);
            assert(self@.refs == before.refs);
            assert forall|i: int| 0 <= i < self@.nodes.len() implies self@.pat_ok(
                #[trigger] self@.nodes[i],
            ) by {
                assert(before.pat_ok(before.nodes[i]));
            }
            assert forall|k: usize| #[trigger] self@.refs.contains_key(k) implies self@.has(
                self@.refs[k],
            ) by {
                assert(before.refs.contains_key(k));
            }
            assert forall|q: Pat| #[trigger] self@.index.contains_key(q) implies self@.has(
                self@.index[q],
            ) by {
                assert(before.index.contains_key(q));
            }
            assert forall|i: int| 0 <= i < self@.datatypes.len() implies (
            #[trigger] self@.datatypes[i]).wf() by {
                assert(before.datatypes[i].wf());
            }
        }
    }

    /// The number of name classes in the table.
    pub fn names_len(&self) -> (r: usize)
        ensures
            r == self@.names.len(),
    {
        self.names.len()
    }

    /// The name class with the number `n`.
    pub fn name_class(&self, n: u32) -> (r: &'a NameClass)
        requires
            n < self@.names.len(),
        ensures
            r@ == self@.names[n as int],
    {
        self.names[n as usize]
    }

    /// The datatype with the number `d`.
    pub fn datatype(&self, d: u32) -> (r: &'a Datatypes)
        requires
            d < self@.datatypes.len(),
        ensures
            *r == self@.datatypes[d as int],
    {
        self.datatypes[d as usize]
    }

    /// The value with the number `v`.
    pub fn value(&self, v: u32) -> (r: &'a DatatypeValues)
        requires
            v < self@.values.len(),
        ensures
            *r == self@.values[v as int],
    {
        self.values[v as usize]
    }
}

} // verus!
