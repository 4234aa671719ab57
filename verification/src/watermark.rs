//! Source progress of delta-synced values.

use vstd::prelude::*;
use crate::cacheable::Cacheable;

verus! {

/// A position in a source.
pub trait MonotonicWatermark: Sized {
    /// Whether the position is at or before `other`. An implementation says when.
    open spec fn at_most(&self, other: Self) -> bool {
        arbitrary()
    }

    /// Tells whether the position is at or before `other`.
    fn is_at_most(&self, other: &Self) -> (r: bool)
        ensures
            r == self.at_most(*other),
    ;

    /// Makes the same position again.
    fn copy(&self) -> (r: Self)
        ensures
            r == *self,
    ;
}

/// Of two positions one is at or before the other, and what is at or before a position is
/// so for every later one.
pub open spec fn positions_are_ordered<W: MonotonicWatermark>() -> bool {
    &&& forall|a: W, b: W| #[trigger] a.at_most(b) || b.at_most(a)
    &&& forall|a: W, b: W, c: W| #[trigger] a.at_most(b) && #[trigger] b.at_most(c) ==> a.at_most(c)
}

impl MonotonicWatermark for i64 {
    open spec fn at_most(&self, other: Self) -> bool {
        *self <= other
    }

    fn is_at_most(&self, other: &Self) -> (r: bool) {
        *self <= *other
    }

    fn copy(&self) -> (r: Self) {
        *self
    }
}

impl MonotonicWatermark for u64 {
    open spec fn at_most(&self, other: Self) -> bool {
        *self <= other
    }

    fn is_at_most(&self, other: &Self) -> (r: bool) {
        *self <= *other
    }

    fn copy(&self) -> (r: Self) {
        *self
    }
}

/// Integers are ordered positions.
pub proof fn integers_are_ordered()
    ensures
        positions_are_ordered::<i64>(),
        positions_are_ordered::<u64>(),
{
}

/// A cacheable value that carries the source position at which it was written.
pub trait DeltaSyncCacheable: Cacheable {
    /// Positions in the source.
    type Watermark: MonotonicWatermark;

    /// The source position of the value. An implementation says which.
    open spec fn spec_watermark(&self) -> Self::Watermark {
        arbitrary()
    }

    /// Returns the source position of the value.
    fn watermark(&self) -> (r: Self::Watermark)
        ensures
            r == self.spec_watermark(),
    ;
}

/// An integer is at or before another where it is no greater.
pub proof fn integers_are_positions(a: i64, b: i64, c: u64, d: u64)
    ensures
        a.at_most(b) <==> a <= b,
        c.at_most(d) <==> c <= d,
{
}

} // verus!
