//! The order by which the bounded queues arrange their items.

use vstd::prelude::*;

verus! {

/// A value with a position in a total preorder.
///
/// The queues compare items by `rank` alone: two different values may share a
/// rank, and then neither goes before the other.
pub trait Ranked: Copy {
    /// The position of the value; a smaller rank goes first.
    spec fn rank(&self) -> int;

    /// Whether `self` goes strictly before `other`.
    fn ranks_before(&self, other: &Self) -> (b: bool)
        ensures
            b == (self.rank() < other.rank()),
    ;
}

impl Ranked for u8 {
    open spec fn rank(&self) -> int {
        *self as int
    }

    fn ranks_before(&self, other: &Self) -> (b: bool) {
        *self < *other
    }
}

impl Ranked for u16 {
    open spec fn rank(&self) -> int {
        *self as int
    }

    fn ranks_before(&self, other: &Self) -> (b: bool) {
        *self < *other
    }
}

impl Ranked for u32 {
    open spec fn rank(&self) -> int {
        *self as int
    }

    fn ranks_before(&self, other: &Self) -> (b: bool) {
        *self < *other
    }
}

impl Ranked for u64 {
    open spec fn rank(&self) -> int {
        *self as int
    }

    fn ranks_before(&self, other: &Self) -> (b: bool) {
        *self < *other
    }
}

impl Ranked for usize {
    open spec fn rank(&self) -> int {
        *self as int
    }

    fn ranks_before(&self, other: &Self) -> (b: bool) {
        *self < *other
    }
}

} // verus!
