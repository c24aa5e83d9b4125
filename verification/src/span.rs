//! Positions in a source text.

use vstd::prelude::*;

verus! {

/// A half-open range of byte offsets.
#[derive(Clone, Copy, PartialEq, Eq, Structural, Debug)]
pub struct Span {
    pub start: usize,
    pub end: usize,
}

impl Span {
    pub fn new(start: usize, end: usize) -> (r: Span)
        ensures
            r == (Span { start, end }),
    {
        Span { start, end }
    }
}

} // verus!
