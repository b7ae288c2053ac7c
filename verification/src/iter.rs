//! Slices as divisible work domains, the collection sink, and the `reduce`
//! entry point that ties a domain, a reducer and a scheduling policy
//! together.

use crate::divisibility::RangeDomain;
use crate::executor::par_join_reduce;
use crate::executor::par_schedule_reduce;
use crate::reducer::ffold;
use crate::reducer::lemma_collect_ffold;
use crate::reducer::CollectReducer;
use crate::reducer::Reducer;
use crate::scheduler::sequential_reduce;
use crate::traits::Divisible;
use crate::traits::DivisibleAtIndex;
use crate::traits::DivisibleIntoBlocks;
use crate::traits::Edible;
use crate::traits::IndexedParallelIterator;
use crate::traits::ParametrizedInput;
use crate::traits::PeekableIterator;
use crate::Policy;
use vstd::prelude::*;

verus! {

/// A slice as a divisible work domain, yielding copies of its elements.
pub struct Iter<'a, T> {
    /// The elements still owned by this piece of the iteration.
    pub slice: &'a [T],
}

impl<'a, T: Copy> Iter<'a, T> {
    /// The whole of `slice` as one domain.
    pub fn new(slice: &'a [T]) -> (r: Iter<'a, T>)
        ensures
            r.wf(),
            r.elements() == slice@,
    {
        Iter { slice }
    }
}

impl<'a, T: Copy> Divisible for Iter<'a, T> {
    type Item = T;

    open spec fn wf(&self) -> bool {
        true
    }

    open spec fn elements(&self) -> Seq<T> {
        self.slice@
    }

    fn base_length(&self) -> (r: usize) {
        self.slice.len()
    }

    fn divide(self) -> (r: (Self, Self)) {
        let mid = self.slice.len() / 2;
        let (left, right) = self.slice.split_at(mid);
        proof {
            assert(self.slice@ =~= left@ + right@);
        }
        (Iter { slice: left }, Iter { slice: right })
    }
}

impl<'a, T: Copy> DivisibleIntoBlocks for Iter<'a, T> {
    fn divide_at(self, index: usize) -> (r: (Self, Self)) {
        let (left, right) = self.slice.split_at(index);
        (Iter { slice: left }, Iter { slice: right })
    }

    fn cut_left_at(&mut self, index: usize) -> (r: Self) {
        let (left, right) = self.slice.split_at(index);
        self.slice = right;
        Iter { slice: left }
    }
}

impl<'a, T: Copy> DivisibleAtIndex for Iter<'a, T> {

}

impl<'a, T: Copy> IndexedParallelIterator for Iter<'a, T> {

}

impl<'a, T: Copy> Edible for Iter<'a, T> {
    fn iter(self, size: usize) -> (r: (Vec<T>, Self)) {
        let (taken, rest) = self.slice.split_at(size);
        let mut items: Vec<T> = Vec::new();
        let mut i: usize = 0;
        while i < size
            invariant
                i <= size,
                size == taken@.len(),
                items@.len() == i,
                forall|j: int| 0 <= j < i ==> #[trigger] items@[j] == taken@[j],
            decreases size - i,
        {
            items.push(taken[i]);
            i = i + 1;
        }
        proof {
            assert(items@ =~= self.slice@.subrange(0, size as int));
        }
        (items, Iter { slice: rest })
    }
}

impl<'a, T: Copy> PeekableIterator for Iter<'a, T> {
    fn peek(&self, index: usize) -> (r: T) {
        self.slice[index]
    }
}

/// Reduce the domain's elements under the given scheduling policy, starting
/// from the reducer's identity.  Whatever the policy — sequential, eager
/// splitting or adaptive stealing — the result is the sequential
/// left-to-right fold of the elements.
pub fn reduce<D, R>(domain: D, reducer: &R, policy: Policy) -> (out: R::Output) where
    D: Edible + Send,
    R: Reducer<D::Item> + Sync,
    R::Output: Send,

    requires
        domain.wf(),
    ensures
        reducer.model(out) == ffold(*reducer, domain.elements(), reducer.spec_identity()),
{
    let id = reducer.identity();
    match policy {
        Policy::Sequential => sequential_reduce(domain, reducer, id),
        Policy::Rayon(size) => par_join_reduce(domain, reducer, id, size),
        Policy::Join(size) => par_join_reduce(domain, reducer, id, size),
        Policy::Adaptive(lo, hi) => {
            let lower = if lo >= 1 {
                lo
            } else {
                1
            };
            let upper = if hi >= lower {
                hi
            } else {
                lower
            };
            par_schedule_reduce(domain, reducer, id, upper, lower, upper)
        },
    }
}

impl<D: Edible + Send> ParametrizedInput<D> {
    /// Reduce the paired domain under the paired policy.
    pub fn reduce<R>(self, reducer: &R) -> (out: R::Output) where
        R: Reducer<D::Item> + Sync,
        R::Output: Send,

        requires
            self.input.wf(),
        ensures
            reducer.model(out) == ffold(*reducer, self.input.elements(), reducer.spec_identity()),
    {
        reduce(self.input, reducer, self.policy)
    }
}

/// Types that can be collected from a reduction over a divisible domain.
pub trait FromParallelIterator<T: Copy>: Sized {
    /// The ordered contents of the collection.
    spec fn collected(&self) -> Seq<T>;

    /// Collect every element of the domain, in its original order.
    fn from_par_iter<D: Edible<Item = T> + Send>(domain: D) -> (r: Self)
        requires
            domain.wf(),
        ensures
            r.collected() == domain.elements(),
    ;
}

impl<T: Copy + Send> FromParallelIterator<T> for Vec<T> {
    open spec fn collected(&self) -> Seq<T> {
        self@
    }

    fn from_par_iter<D: Edible<Item = T> + Send>(domain: D) -> (r: Vec<T>) {
        let ghost elems = domain.elements();
        let policy = domain.policy();
        let out = reduce(domain, &CollectReducer, policy);
        proof {
            lemma_collect_ffold(elems, Seq::<T>::empty());
            assert(Seq::<T>::empty() + elems =~= elems);
        }
        out
    }
}

/// The integers `start..end` as a reducible domain.
pub fn range_domain(start: u64, end: u64) -> (r: RangeDomain)
    requires
        start <= end,
        end - start <= usize::MAX,
    ensures
        r.wf(),
        r.elements() == Seq::new((end - start) as nat, |i: int| (start + i) as u64),
{
    RangeDomain::new(start, end)
}

} // verus!
