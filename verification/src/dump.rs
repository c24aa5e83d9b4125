//! The patterns of the pool as text, one pattern a line, indented by depth.

use vstd::prelude::*;
use std::collections::HashSet;
use crate::pool::{Pat, PatId, Pool, Schema};
use crate::report::{describe_nameclass, described};
use crate::text::{decimal, push_decimal};

verus! {

/// The name of the kind of a pattern.
pub open spec fn label(pat: Pat) -> &'static str {
    match pat {
        Pat::Choice(_, _, _) => "Choice",
        Pat::Interleave(_, _, _) => "Interleave",
        Pat::Group(_, _, _) => "Group",
        Pat::OneOrMore(_, _) => "OneOrMany",
        Pat::Empty => "Empty",
        Pat::Text => "Text",
        Pat::NotAllowed => "NotAllowed",
        Pat::Attribute(_, _) => "Att",
        Pat::Element(_, _) => "Elem",
        Pat::Datatype(_) => "Data",
        Pat::DatatypeValue(_) => "Value",
        Pat::DatatypeExcept(_, _) => "Data",
        Pat::List(_) => "List",
        Pat::Placeholder(_) => "Placeholder",
        Pat::After(_, _) => "After",
    }
}

/// The patterns that a pattern holds.
pub open spec fn parts(pat: Pat) -> (Option<PatId>, Option<PatId>) {
    match pat {
        Pat::Choice(a, b, _) => (Some(a), Some(b)),
        Pat::Interleave(a, b, _) => (Some(a), Some(b)),
        Pat::Group(a, b, _) => (Some(a), Some(b)),
        Pat::After(a, b) => (Some(a), Some(b)),
        Pat::OneOrMore(a, _) => (Some(a), None),
        Pat::Attribute(_, a) => (Some(a), None),
        Pat::Element(_, a) => (Some(a), None),
        Pat::DatatypeExcept(_, a) => (Some(a), None),
        Pat::List(a) => (Some(a), None),
        _ => (None, None),
    }
}

/// What follows the name and the number of a pattern on its line: `(` for
/// a pattern that holds others, with the name class of an attribute or an
/// element, `-` for data with exceptions.
pub open spec fn opening(pool: Pool, pat: Pat) -> Seq<char> {
    match pat {
        Pat::Attribute(n, _) | Pat::Element(n, _) => seq!['('] + (if n < pool.names.len() {
            described(pool.names[n as int])
        } else {
            Seq::empty()
        }) + seq!['='],
        Pat::DatatypeExcept(_, _) => seq!['-'],
        Pat::Empty
        | Pat::Text
        | Pat::NotAllowed
        | Pat::Datatype(_)
        | Pat::DatatypeValue(_)
        | Pat::Placeholder(_) => Seq::empty(),
        _ => seq!['('],
    }
}

/// Whether the lines of a pattern end with a line of its own that holds `)`.
pub open spec fn closes(pat: Pat) -> bool {
    parts(pat).0 is Some && !(pat is DatatypeExcept)
}

/// Two spaces for each level of depth.
pub open spec fn indent(depth: nat) -> Seq<char>
    decreases depth,
{
    if depth == 0 {
        Seq::empty()
    } else {
        indent((depth - 1) as nat) + seq![' ', ' ']
    }
}

impl Pool {
    /// The lines of pattern `pat` at depth `depth`, and the patterns that
    /// were shown: a pattern that was shown before gets one line that ends
    /// in `!`; deeper than `fuel` levels there is one line of dots.
    pub open spec fn dumped(self, depth: nat, pat: PatId, seen: Set<u32>, fuel: nat) -> (
        Seq<char>,
        Set<u32>,
    )
        decreases fuel,
    {
        let node = self.node(pat);
        let name = indent(depth) + label(node)@ + decimal(pat.0 as nat);
        if fuel == 0 {
            (indent(depth) + seq!['.', '.', '.', '\n'], seen)
        } else if seen.contains(pat.0) {
            (name + seq!['!', '\n'], seen)
        } else {
            let head = name + opening(self, node) + seq!['\n'];
            let first = match parts(node).0 {
                Some(a) => self.dumped(depth + 1, a, seen.insert(pat.0), (fuel - 1) as nat),
                None => (Seq::empty(), seen.insert(pat.0)),
            };
            let second = match parts(node).1 {
                Some(b) => self.dumped(depth + 1, b, first.1, (fuel - 1) as nat),
                None => (Seq::empty(), first.1),
            };
            let tail = if closes(node) {
                indent(depth) + seq![')', '\n']
            } else {
                Seq::empty()
            };
            (head + first.0 + second.0 + tail, second.1)
        }
    }
}

fn label_of(pat: &Pat) -> (r: &'static str)
    ensures
        r == label(*pat),
{
    match pat {
        Pat::Choice(_, _, _) => "Choice",
        Pat::Interleave(_, _, _) => "Interleave",
        Pat::Group(_, _, _) => "Group",
        Pat::OneOrMore(_, _) => "OneOrMany",
        Pat::Empty => "Empty",
        Pat::Text => "Text",
        Pat::NotAllowed => "NotAllowed",
        Pat::Attribute(_, _) => "Att",
        Pat::Element(_, _) => "Elem",
        Pat::Datatype(_) => "Data",
        Pat::DatatypeValue(_) => "Value",
        Pat::DatatypeExcept(_, _) => "Data",
        Pat::List(_) => "List",
        Pat::Placeholder(_) => "Placeholder",
        Pat::After(_, _) => "After",
    }
}

fn parts_of(pat: &Pat) -> (r: (Option<PatId>, Option<PatId>))
    ensures
        r == parts(*pat),
{
    match pat {
        Pat::Choice(a, b, _) => (Some(*a), Some(*b)),
        Pat::Interleave(a, b, _) => (Some(*a), Some(*b)),
        Pat::Group(a, b, _) => (Some(*a), Some(*b)),
        Pat::After(a, b) => (Some(*a), Some(*b)),
        Pat::OneOrMore(a, _) => (Some(*a), None),
        Pat::Attribute(_, a) => (Some(*a), None),
        Pat::Element(_, a) => (Some(*a), None),
        Pat::DatatypeExcept(_, a) => (Some(*a), None),
        Pat::List(a) => (Some(*a), None),
        _ => (None, None),
    }
}

fn push_indent(w: &mut String, depth: usize)
    ensures
        final(w)@ == old(w)@ + indent(depth as nat),
{
    let mut i: usize = 0;
    assert(w@ =~= old(w)@ + indent(0));
    while i < depth
        invariant
            i <= depth,
            w@ == old(w)@ + indent(i as nat),
        decreases depth - i,
    {
        w.push(' ');
        w.push(' ');
        i += 1;
        assert(w@ =~= old(w)@ + indent(i as nat));
    }
}

impl<'a> Schema<'a> {
    /// The lines of pattern `pat`.
    pub fn dumpy(&self, pat: PatId) -> (r: String)
        requires
            self.wf(),
            self@.has(pat),
        ensures
            r@ == self@.dumped(0, pat, Set::empty(), self@.nodes.len() + 1).0,
    {
        let mut seen: HashSet<u32> = HashSet::new();
        let mut w = String::new();
        self.dumpy_dump(0, pat, &mut w, &mut seen, self.len() + 1);
        assert(Seq::<char>::empty() + self@.dumped(
            0,
            pat,
            Set::empty(),
            self@.nodes.len() + 1,
        ).0 =~= self@.dumped(0, pat, Set::empty(), self@.nodes.len() + 1).0);
        w
    }

    /// Appends what follows the name and the number of a pattern.
    fn push_opening(&self, node: Pat, w: &mut String)
        requires
            self.wf(),
        ensures
            final(w)@ == old(w)@ + opening(self@, node),
    {
        match node {
            Pat::Attribute(n, _) | Pat::Element(n, _) => {
                w.push('(');
                if (n as usize) < self.names_len() {
                    describe_nameclass(self.name_class(n), w);
                }
                w.push('=');
                assert(w@ =~= old(w)@ + opening(self@, node));
            },
            Pat::DatatypeExcept(_, _) => {
                w.push('-');
                assert(w@ =~= old(w)@ + opening(self@, node));
            },
            Pat::Empty
            | Pat::Text
            | Pat::NotAllowed
            | Pat::Datatype(_)
            | Pat::DatatypeValue(_)
            | Pat::Placeholder(_) => {
                assert(w@ =~= old(w)@ + opening(self@, node));
            },
            _ => {
                w.push('(');
                assert(w@ =~= old(w)@ + opening(self@, node));
            },
        }
    }

    /// Appends the indentation, the name and the number of a pattern.
    fn push_name(&self, depth: usize, pat: PatId, node: Pat, w: &mut String)
        ensures
            final(w)@ == old(w)@ + (indent(depth as nat) + label(node)@ + decimal(pat.0 as nat)),
    {
        push_indent(w, depth);
        w.append(label_of(&node));
        push_decimal(w, pat.0 as usize);
        assert(w@ =~= old(w)@ + (indent(depth as nat) + label(node)@ + decimal(pat.0 as nat)));
    }

    /// Appends the lines of the patterns that a pattern holds.
    fn dump_parts(
        &self,
        depth: usize,
        node: Pat,
        w: &mut String,
        seen: &mut HashSet<u32>,
        fuel: usize,
    )
        requires
            self.wf(),
            self@.pat_ok(node),
            depth + fuel < usize::MAX,
        ensures
            ({
                let first = match parts(node).0 {
                    Some(a) => self@.dumped((depth + 1) as nat, a, old(seen)@, fuel as nat),
                    None => (Seq::empty(), old(seen)@),
                };
                let second = match parts(node).1 {
                    Some(b) => self@.dumped((depth + 1) as nat, b, first.1, fuel as nat),
                    None => (Seq::empty(), first.1),
                };
                final(w)@ == old(w)@ + (first.0 + second.0) && final(seen)@ == second.1
            }),
        decreases fuel, 1nat,
    {
        let (first, second) = parts_of(&node);
        let ghost f = match parts(node).0 {
            Some(a) => self@.dumped((depth + 1) as nat, a, old(seen)@, fuel as nat),
            None => (Seq::empty(), old(seen)@),
        };
        if let Some(a) = first {
            self.dumpy_dump(depth + 1, a, w, seen, fuel);
        }
        assert(w@ =~= old(w)@ + f.0);
        let ghost s = match parts(node).1 {
            Some(b) => self@.dumped((depth + 1) as nat, b, f.1, fuel as nat),
            None => (Seq::empty(), f.1),
        };
        if let Some(b) = second {
            self.dumpy_dump(depth + 1, b, w, seen, fuel);
        }
        assert(w@ =~= old(w)@ + (f.0 + s.0));
    }

    /// Appends the closing parenthesis of a pattern that has one.
    fn push_closing(depth: usize, node: Pat, w: &mut String)
        ensures
            final(w)@ == old(w)@ + closing(depth as nat, node),
    {
        if parts_of(&node).0.is_some() && !matches!(node, Pat::DatatypeExcept(_, _)) {
            push_indent(w, depth);
            w.push(')');
            w.push('\n');
            assert(w@ =~= old(w)@ + (indent(depth as nat) + seq![')', '\n']));
        } else {
            assert(w@ =~= old(w)@ + Seq::<char>::empty());
        }
    }

    /// Appends the line that stands for what lies too deep to be shown.
    fn push_cut(depth: usize, w: &mut String)
        ensures
            final(w)@ == old(w)@ + (indent(depth as nat) + seq!['.', '.', '.', '\n']),
    {
        push_indent(w, depth);
        w.push('.');
        w.push('.');
        w.push('.');
        w.push('\n');
        assert(w@ =~= old(w)@ + (indent(depth as nat) + seq!['.', '.', '.', '\n']));
    }

    /// Appends the line of a pattern that was shown before.
    fn push_seen(&self, depth: usize, pat: PatId, node: Pat, w: &mut String)
        ensures
            final(w)@ == old(w)@ + (indent(depth as nat) + label(node)@ + decimal(pat.0 as nat)
                + seq!['!', '\n']),
    {
        self.push_name(depth, pat, node, w);
        w.push('!');
        w.push('\n');
        assert(w@ =~= old(w)@ + (indent(depth as nat) + label(node)@ + decimal(pat.0 as nat)
            + seq!['!', '\n']));
    }

    /// Appends the first line of a pattern that is shown in full.
    fn push_head(&self, depth: usize, pat: PatId, node: Pat, w: &mut String)
        requires
            self.wf(),
        ensures
            final(w)@ == old(w)@ + (indent(depth as nat) + label(node)@ + decimal(pat.0 as nat)
                + opening(self@, node) + seq!['\n']),
    {
        self.push_name(depth, pat, node, w);
        self.push_opening(node, w);
        w.push('\n');
        assert(w@ =~= old(w)@ + (indent(depth as nat) + label(node)@ + decimal(pat.0 as nat)
            + opening(self@, node) + seq!['\n']));
    }

    /// Appends the lines of pattern `pat` at depth `depth` to `w`, and notes
    /// in `seen` the patterns that were shown.
    pub fn dumpy_dump(
        &self,
        depth: usize,
        pat: PatId,
        w: &mut String,
        seen: &mut HashSet<u32>,
        fuel: usize,
    )
        requires
            self.wf(),
            self@.has(pat),
            depth + fuel <= usize::MAX,
        ensures
            final(w)@ == old(w)@ + self@.dumped(depth as nat, pat, old(seen)@, fuel as nat).0,
            final(seen)@ == self@.dumped(depth as nat, pat, old(seen)@, fuel as nat).1,
        decreases fuel, 0nat,
    {
        if fuel == 0 {
            Self::push_cut(depth, w);
            return ;
        }
        assert(self@.pat_ok(self@.nodes[pat.0 as int]));
        let node = self.patt(pat);
        if seen.contains(&pat.0) {
            self.push_seen(depth, pat, node, w);
            return ;
        }
        seen.insert(pat.0);
        self.push_head(depth, pat, node, w);
        self.dump_parts(depth, node, w, seen, fuel - 1);
        Self::push_closing(depth, node, w);
        proof {
            let noted = old(seen)@.insert(pat.0);
            let first = match parts(node).0 {
                Some(a) => self@.dumped((depth + 1) as nat, a, noted, (fuel - 1) as nat),
                None => (Seq::empty(), noted),
            };
            let second = match parts(node).1 {
                Some(b) => self@.dumped((depth + 1) as nat, b, first.1, (fuel - 1) as nat),
                None => (Seq::empty(), first.1),
            };
            let head = indent(depth as nat) + label(node)@ + decimal(pat.0 as nat) + opening(
                self@,
                node,
            ) + seq!['\n'];
            lemma_dumped_parts(self@, depth as nat, pat, old(seen)@, fuel as nat);
            lemma_joined(old(w)@, head, first.0 + second.0);
            lemma_joined(old(w)@, head + (first.0 + second.0), closing(depth as nat, node));
        }
    }
}

/// Joining is associative.
proof fn lemma_joined(a: Seq<char>, b: Seq<char>, c: Seq<char>)
    ensures
        (a + b) + c == a + (b + c),
{
    assert((a + b) + c =~= a + (b + c));
}

/// What closes the lines of a pattern: a parenthesis on a line of its own,
/// for the patterns that are shown with one.
pub open spec fn closing(depth: nat, node: Pat) -> Seq<char> {
    if closes(node) {
        indent(depth) + seq![')', '\n']
    } else {
        Seq::empty()
    }
}

/// The lines of a pattern that is shown in full are its head, the lines of
/// its parts, and what closes it.
proof fn lemma_dumped_parts(pool: Pool, depth: nat, pat: PatId, seen: Set<u32>, fuel: nat)
    requires
        fuel > 0,
        !seen.contains(pat.0),
    ensures
        ({
            let node = pool.node(pat);
            let first = match parts(node).0 {
                Some(a) => pool.dumped(depth + 1, a, seen.insert(pat.0), (fuel - 1) as nat),
                None => (Seq::empty(), seen.insert(pat.0)),
            };
            let second = match parts(node).1 {
                Some(b) => pool.dumped(depth + 1, b, first.1, (fuel - 1) as nat),
                None => (Seq::empty(), first.1),
            };
            let head = indent(depth) + label(node)@ + decimal(pat.0 as nat) + opening(pool, node)
                + seq!['\n'];
            &&& pool.dumped(depth, pat, seen, fuel).0 == head + (first.0 + second.0) + closing(
                depth,
                node,
            )
            &&& pool.dumped(depth, pat, seen, fuel).1 == second.1
        }),
{
    let node = pool.node(pat);
    let first = match parts(node).0 {
        Some(a) => pool.dumped(depth + 1, a, seen.insert(pat.0), (fuel - 1) as nat),
        None => (Seq::empty(), seen.insert(pat.0)),
    };
    let second = match parts(node).1 {
        Some(b) => pool.dumped(depth + 1, b, first.1, (fuel - 1) as nat),
        None => (Seq::empty(), first.1),
    };
    let head = indent(depth) + label(node)@ + decimal(pat.0 as nat) + opening(pool, node) + seq![
        '\n',
    ];
    assert(head + first.0 + second.0 + closing(depth, node) =~= head + (first.0 + second.0)
        + closing(depth, node));
}

} // verus!
