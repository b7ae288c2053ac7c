//! The combining capability of a reduction, and the fold model every
//! scheduler is proved against.
//!
//! A [`Reducer`] packages the user-supplied identity, the per-item fold and
//! the partial-result combine operator.  Results are abstracted by a
//! mathematical model; [`ffold`] is the sequential left-to-right fold over
//! that model.  The two laws ([`Reducer::lemma_right_identity`] and
//! [`Reducer::lemma_hoist`]) are exactly what lets a scheduler combine the
//! results of disjoint pieces with `op` and still obtain the sequential left
//! fold, in the original element order, no matter how the pieces were split.
//! For a plain reduction, where folding an item is combining with it, the
//! hoist law is associativity of the combine operator.

use vstd::prelude::*;

verus! {

/// An identity, a per-item fold and an associative combine operator, with
/// the laws that make order-preserving divide-and-conquer reduction agree
/// with the sequential left fold.
pub trait Reducer<Item: Copy>: Sized {
    /// The partial-result type of the reduction.
    type Output;

    /// The mathematical model of a partial result.
    type Model;

    /// The model of a concrete partial result.
    spec fn model(&self, o: Self::Output) -> Self::Model;

    /// The model of the identity accumulator.
    spec fn spec_identity(&self) -> Self::Model;

    /// Folding one item into an accumulator.
    spec fn spec_fold(&self, acc: Self::Model, x: Item) -> Self::Model;

    /// Combining two partial results, left-hand contribution first.
    spec fn spec_op(&self, a: Self::Model, b: Self::Model) -> Self::Model;

    /// The identity is neutral on the right of the combine operator.
    proof fn lemma_right_identity(&self, a: Self::Model)
        ensures
            self.spec_op(a, self.spec_identity()) == a,
    ;

    /// A fold can be hoisted out of the right-hand side of a combine.  For a
    /// pure reduction (fold == combine) this is associativity.
    proof fn lemma_hoist(&self, a: Self::Model, b: Self::Model, x: Item)
        ensures
            self.spec_op(a, self.spec_fold(b, x)) == self.spec_fold(self.spec_op(a, b), x),
    ;

    /// Produce a fresh identity accumulator.
    fn identity(&self) -> (r: Self::Output)
        ensures
            self.model(r) == self.spec_identity(),
    ;

    /// Fold one item into an accumulator.
    fn fold_item(&self, acc: Self::Output, x: Item) -> (r: Self::Output)
        ensures
            self.model(r) == self.spec_fold(self.model(acc), x),
    ;

    /// Combine two partial results, the left contribution first.
    fn op(&self, a: Self::Output, b: Self::Output) -> (r: Self::Output)
        ensures
            self.model(r) == self.spec_op(self.model(a), self.model(b)),
    ;
}

/// The sequential left-to-right fold of `s` into `acc`: the reference
/// semantics of every reduction in this crate.
pub open spec fn ffold<Item: Copy, R: Reducer<Item>>(r: R, s: Seq<Item>, acc: R::Model) -> R::Model
    decreases s.len(),
{
    if s.len() == 0 {
        acc
    } else {
        ffold(r, s.drop_first(), r.spec_fold(acc, s[0]))
    }
}

/// Folding a concatenation is folding the parts in order.
pub proof fn lemma_ffold_concat<Item: Copy, R: Reducer<Item>>(
    r: R,
    s1: Seq<Item>,
    s2: Seq<Item>,
    acc: R::Model,
)
    ensures
        ffold(r, s1 + s2, acc) == ffold(r, s2, ffold(r, s1, acc)),
    decreases s1.len(),
{
    if s1.len() == 0 {
        assert(s1 + s2 =~= s2);
    } else {
        assert((s1 + s2).drop_first() =~= s1.drop_first() + s2);
        assert((s1 + s2)[0] == s1[0]);
        lemma_ffold_concat(r, s1.drop_first(), s2, r.spec_fold(acc, s1[0]));
    }
}

/// Folding one more item at the end.
pub proof fn lemma_ffold_push<Item: Copy, R: Reducer<Item>>(
    r: R,
    s: Seq<Item>,
    x: Item,
    acc: R::Model,
)
    ensures
        ffold(r, s.push(x), acc) == r.spec_fold(ffold(r, s, acc), x),
    decreases s.len(),
{
    if s.len() == 0 {
        assert(s.push(x).drop_first() =~= Seq::<Item>::empty());
        assert(s.push(x)[0] == x);
        assert(ffold(r, Seq::<Item>::empty(), r.spec_fold(acc, x)) == r.spec_fold(acc, x));
    } else {
        assert(s.push(x).drop_first() =~= s.drop_first().push(x));
        assert(s.push(x)[0] == s[0]);
        lemma_ffold_push(r, s.drop_first(), x, r.spec_fold(acc, s[0]));
    }
}

/// A combine distributes over a whole fold: `op(a, ffold(s, b))` is
/// `ffold(s, op(a, b))`.
pub proof fn lemma_op_ffold<Item: Copy, R: Reducer<Item>>(
    r: R,
    a: R::Model,
    s: Seq<Item>,
    b: R::Model,
)
    ensures
        r.spec_op(a, ffold(r, s, b)) == ffold(r, s, r.spec_op(a, b)),
    decreases s.len(),
{
    if s.len() != 0 {
        r.lemma_hoist(a, b, s[0]);
        lemma_op_ffold(r, a, s.drop_first(), r.spec_fold(b, s[0]));
    }
}

/// The key combination step of every scheduler: combining a left partial
/// result with the fold of the right piece, started from the identity, is
/// the fold of the right piece continued from the left result.
pub proof fn lemma_combine<Item: Copy, R: Reducer<Item>>(r: R, a: R::Model, s: Seq<Item>)
    ensures
        r.spec_op(a, ffold(r, s, r.spec_identity())) == ffold(r, s, a),
{
    lemma_op_ffold(r, a, s, r.spec_identity());
    r.lemma_right_identity(a);
}

/// Addition of 64-bit integers that wraps around on overflow.
pub open spec fn wrap_add_spec(a: u64, b: u64) -> u64 {
    if a + b <= u64::MAX {
        (a + b) as u64
    } else {
        (a + b - 0x10000000000000000) as u64
    }
}

/// Wrap-around addition, the total form of `+` on `u64`.
pub fn wrap_add(a: u64, b: u64) -> (r: u64)
    ensures
        r == wrap_add_spec(a, b),
{
    if b <= u64::MAX - a {
        a + b
    } else {
        b - (u64::MAX - a) - 1
    }
}

/// Summing 64-bit integers with wrap-around addition.
pub struct SumReducer;

impl Reducer<u64> for SumReducer {
    type Output = u64;

    type Model = u64;

    open spec fn model(&self, o: u64) -> u64 {
        o
    }

    open spec fn spec_identity(&self) -> u64 {
        0
    }

    open spec fn spec_fold(&self, acc: u64, x: u64) -> u64 {
        wrap_add_spec(acc, x)
    }

    open spec fn spec_op(&self, a: u64, b: u64) -> u64 {
        wrap_add_spec(a, b)
    }

    proof fn lemma_right_identity(&self, a: u64) {
    }

    proof fn lemma_hoist(&self, a: u64, b: u64, x: u64) {
    }

    fn identity(&self) -> (r: u64) {
        0
    }

    fn fold_item(&self, acc: u64, x: u64) -> (r: u64) {
        wrap_add(acc, x)
    }

    fn op(&self, a: u64, b: u64) -> (r: u64) {
        wrap_add(a, b)
    }
}

/// Collecting items into a vector in their original order.  Its combine
/// operator, concatenation, is associative but not commutative, so a
/// reduction with it exhibits exactly the element order the scheduler used.
pub struct CollectReducer;

impl<T: Copy> Reducer<T> for CollectReducer {
    type Output = Vec<T>;

    type Model = Seq<T>;

    open spec fn model(&self, o: Vec<T>) -> Seq<T> {
        o@
    }

    open spec fn spec_identity(&self) -> Seq<T> {
        Seq::empty()
    }

    open spec fn spec_fold(&self, acc: Seq<T>, x: T) -> Seq<T> {
        acc.push(x)
    }

    open spec fn spec_op(&self, a: Seq<T>, b: Seq<T>) -> Seq<T> {
        a + b
    }

    proof fn lemma_right_identity(&self, a: Seq<T>) {
        assert(a + Seq::<T>::empty() =~= a);
    }

    proof fn lemma_hoist(&self, a: Seq<T>, b: Seq<T>, x: T) {
        assert(a + b.push(x) =~= (a + b).push(x));
    }

    fn identity(&self) -> (r: Vec<T>) {
        Vec::new()
    }

    fn fold_item(&self, acc: Vec<T>, x: T) -> (r: Vec<T>) {
        let mut acc = acc;
        acc.push(x);
        acc
    }

    fn op(&self, a: Vec<T>, b: Vec<T>) -> (r: Vec<T>) {
        let mut a = a;
        let mut b = b;
        a.append(&mut b);
        a
    }
}

/// The fold of collecting is the sequence itself, appended to the
/// accumulator: collecting preserves the original element order.
pub proof fn lemma_collect_ffold<T: Copy>(s: Seq<T>, acc: Seq<T>)
    ensures
        ffold(CollectReducer, s, acc) == acc + s,
    decreases s.len(),
{
    let r = CollectReducer;
    if s.len() == 0 {
        assert(acc + s =~= acc);
    } else {
        lemma_collect_ffold(s.drop_first(), acc.push(s[0]));
        assert(acc.push(s[0]) + s.drop_first() =~= acc + s);
    }
}

} // verus!
