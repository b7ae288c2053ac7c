//! The divisibility and extraction capabilities that make a data source
//! reducible.
//!
//! A type implementing [`Divisible`] stands for an ordered, finite collection
//! of pending work items, abstracted by the ghost sequence
//! [`Divisible::elements`].  Splitting consumes the value and hands out two
//! disjoint, order-preserving halves; no element is ever duplicated or lost.

use crate::Policy;
use vstd::prelude::*;

verus! {

/// A domain paired with the scheduling strategy to use on it.
pub struct ParametrizedInput<D> {
    /// The domain to reduce.
    pub input: D,
    /// The scheduling strategy to apply.
    pub policy: Policy,
}

/// A contiguous unit of work that can report its remaining size and divide
/// itself into two disjoint, order-preserving halves.
pub trait Divisible: Sized {
    /// The work items the domain will eventually yield.
    type Item: Copy;

    /// The internal invariant of the domain.
    spec fn wf(&self) -> bool;

    /// The ordered sequence of items the domain still owns.
    spec fn elements(&self) -> Seq<Self::Item>;

    /// How many items are left.
    fn base_length(&self) -> (r: usize)
        requires
            self.wf(),
        ensures
            r == self.elements().len(),
    ;

    /// Split as evenly as possible: the two halves partition the elements in
    /// order and their lengths differ by at most one.
    fn divide(self) -> (r: (Self, Self))
        requires
            self.wf(),
        ensures
            r.0.wf(),
            r.1.wf(),
            self.elements() == r.0.elements() + r.1.elements(),
            r.0.elements().len() + r.1.elements().len() == self.elements().len(),
            r.0.elements().len() <= r.1.elements().len() + 1,
            r.1.elements().len() <= r.0.elements().len() + 1,
    ;

    /// Is there something left to do?
    fn is_empty(&self) -> (r: bool)
        requires
            self.wf(),
        ensures
            r == (self.elements().len() == 0),
    {
        self.base_length() == 0
    }

    /// Pair this domain with a scheduling strategy.
    fn with_policy(self, policy: Policy) -> (r: ParametrizedInput<Self>)
        ensures
            r.input == self,
            r.policy == policy,
    {
        ParametrizedInput { input: self, policy }
    }
}

/// A domain that can also be split at an arbitrary index.
pub trait DivisibleIntoBlocks: Divisible {
    /// Split at exactly `index`: the left half owns the first `index` items,
    /// the right half the rest, in order.
    fn divide_at(self, index: usize) -> (r: (Self, Self))
        requires
            self.wf(),
            index <= self.elements().len(),
        ensures
            r.0.wf(),
            r.1.wf(),
            r.0.elements() == self.elements().subrange(0, index as int),
            r.1.elements() == self.elements().subrange(index as int, self.elements().len() as int),
            r.0.elements().len() + r.1.elements().len() == self.elements().len(),
    ;

    /// Split at `index`, keeping the right part in place and returning the
    /// left part.
    fn cut_left_at(&mut self, index: usize) -> (r: Self)
        requires
            old(self).wf(),
            index <= old(self).elements().len(),
        ensures
            final(self).wf(),
            r.wf(),
            r.elements() == old(self).elements().subrange(0, index as int),
            final(self).elements() == old(self).elements().subrange(
                index as int,
                old(self).elements().len() as int,
            ),
    ;
}

/// A domain whose split cost does not depend on the index.
pub trait DivisibleAtIndex: DivisibleIntoBlocks {

}

/// A domain from which sequential work can be extracted a bounded number of
/// items at a time, leaving the rest owned, intact and still divisible.
pub trait Edible: DivisibleIntoBlocks {
    /// Hand out the next `size` items as plain values, together with the
    /// remaining domain.
    fn iter(self, size: usize) -> (r: (Vec<Self::Item>, Self))
        requires
            self.wf(),
            size <= self.elements().len(),
        ensures
            r.1.wf(),
            r.0@ == self.elements().subrange(0, size as int),
            r.1.elements() == self.elements().subrange(size as int, self.elements().len() as int),
    ;

    /// The scheduling strategy this source prefers.
    fn policy(&self) -> Policy {
        Policy::Rayon(1)
    }
}

/// Domains indexable enough to support exact prefix operations.
pub trait IndexedParallelIterator: DivisibleIntoBlocks {
    /// Keep only the first `n` items.
    fn take(self, n: usize) -> (r: Self)
        requires
            self.wf(),
            n <= self.elements().len(),
        ensures
            r.wf(),
            r.elements() == self.elements().subrange(0, n as int),
    {
        let (left, _right) = self.divide_at(n);
        left
    }
}

/// A domain that can report the item at a given offset without consuming
/// anything.
pub trait PeekableIterator: Divisible {
    /// Peek at the item `index` positions ahead.
    fn peek(&self, index: usize) -> (r: Self::Item)
        requires
            self.wf(),
            index < self.elements().len(),
        ensures
            r == self.elements()[index as int],
    ;
}

} // verus!
