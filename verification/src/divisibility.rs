//! Divisibility for basic types: integer ranges.

use crate::traits::Divisible;
use crate::traits::DivisibleAtIndex;
use crate::traits::DivisibleIntoBlocks;
use crate::traits::Edible;
use crate::traits::IndexedParallelIterator;
use crate::traits::PeekableIterator;
use vstd::prelude::*;

verus! {

/// The half-open range of integers `start..end`, as a divisible work domain.
#[derive(Clone, Copy, Debug, PartialEq, Eq, Structural)]
pub struct RangeDomain {
    /// First integer of the range.
    pub start: u64,
    /// One past the last integer of the range.
    pub end: u64,
}

impl RangeDomain {
    /// The range `start..end`; empty when `end <= start`.
    pub fn new(start: u64, end: u64) -> (r: RangeDomain)
        requires
            start <= end,
            end - start <= usize::MAX,
        ensures
            r.wf(),
            r.elements() == Seq::new((end - start) as nat, |i: int| (start + i) as u64),
    {
        RangeDomain { start, end }
    }
}

impl Divisible for RangeDomain {
    type Item = u64;

    open spec fn wf(&self) -> bool {
        self.start <= self.end && self.end - self.start <= usize::MAX
    }

    open spec fn elements(&self) -> Seq<u64> {
        Seq::new((self.end - self.start) as nat, |i: int| (self.start + i) as u64)
    }

    fn base_length(&self) -> (r: usize) {
        (self.end - self.start) as usize
    }

    fn divide(self) -> (r: (Self, Self)) {
        let mid = self.start + (self.end - self.start) / 2;
        let left = RangeDomain { start: self.start, end: mid };
        let right = RangeDomain { start: mid, end: self.end };
        proof {
            assert(self.elements() =~= left.elements() + right.elements());
        }
        (left, right)
    }
}

impl DivisibleIntoBlocks for RangeDomain {
    fn divide_at(self, index: usize) -> (r: (Self, Self)) {
        let mid = self.start + index as u64;
        let left = RangeDomain { start: self.start, end: mid };
        let right = RangeDomain { start: mid, end: self.end };
        proof {
            assert(left.elements() =~= self.elements().subrange(0, index as int));
            assert(right.elements() =~= self.elements().subrange(
                index as int,
                self.elements().len() as int,
            ));
        }
        (left, right)
    }

    fn cut_left_at(&mut self, index: usize) -> (r: Self) {
        let left = RangeDomain { start: self.start, end: self.start + index as u64 };
        self.start = self.start + index as u64;
        proof {
            assert(left.elements() =~= old(self).elements().subrange(0, index as int));
            assert(self.elements() =~= old(self).elements().subrange(
                index as int,
                old(self).elements().len() as int,
            ));
        }
        left
    }
}

impl DivisibleAtIndex for RangeDomain {

}

impl IndexedParallelIterator for RangeDomain {

}

impl Edible for RangeDomain {
    fn iter(self, size: usize) -> (r: (Vec<u64>, Self)) {
        let mut taken: Vec<u64> = Vec::new();
        let mut i: usize = 0;
        while i < size
            invariant
                self.wf(),
                i <= size,
                size <= self.elements().len(),
                taken@.len() == i,
                forall|j: int| 0 <= j < i ==> #[trigger] taken@[j] == self.elements()[j],
            decreases size - i,
        {
            taken.push(self.start + i as u64);
            i = i + 1;
        }
        let rest = RangeDomain { start: self.start + size as u64, end: self.end };
        proof {
            assert(taken@ =~= self.elements().subrange(0, size as int));
            assert(rest.elements() =~= self.elements().subrange(
                size as int,
                self.elements().len() as int,
            ));
        }
        (taken, rest)
    }
}

impl PeekableIterator for RangeDomain {
    fn peek(&self, index: usize) -> (r: u64) {
        self.start + index as u64
    }
}

} // verus!
