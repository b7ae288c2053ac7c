//! The two-phase scheduler: eager divide-and-conquer down to a threshold,
//! then adaptive leaf execution with steal detection.
//!
//! Every function here is proved to return exactly the sequential
//! left-to-right fold of its domain's elements.  The adaptive engine is
//! driven by a [`StealSignal`], the source of "is a thief waiting?" answers;
//! nothing is assumed about those answers, so the proof covers every steal
//! pattern at once: no steals, a steal on every poll, and anything between.

use crate::reducer::ffold;
use crate::reducer::lemma_combine;
use crate::reducer::lemma_ffold_concat;
use crate::reducer::lemma_ffold_push;
use crate::reducer::Reducer;
use crate::small_channel::SmallChannel;
use crate::traits::Divisible;
use crate::traits::Edible;
use crate::utils::times_pow2;
use vstd::prelude::*;

verus! {

/// A source of steal probes: each `poll` answers whether a thief is waiting
/// for work right now.  No answer is ever assumed, so whatever implements
/// this — a real channel flag, or a fixed test pattern — the schedulers
/// return the same, proved result.
pub trait StealSignal {
    /// Is a thief waiting to receive work right now?
    fn poll(&mut self) -> bool;
}

/// A signal that never reports a waiting thief: pure sequential leaf
/// execution, beyond the cheap polls.
pub struct NeverSteal;

impl StealSignal for NeverSteal {
    fn poll(&mut self) -> bool {
        false
    }
}

/// A signal that reports a waiting thief on every single check: maximal
/// stealing pressure.
pub struct AlwaysSteal;

impl StealSignal for AlwaysSteal {
    fn poll(&mut self) -> bool {
        true
    }
}

/// A fixed pattern of poll answers, `false` once the pattern is exhausted.
pub struct PollSequence {
    /// The answers to hand out, in order.
    pub flags: Vec<bool>,
    /// How many answers have been handed out already.
    pub next: usize,
}

impl StealSignal for PollSequence {
    fn poll(&mut self) -> bool {
        if self.next < self.flags.len() {
            let f = self.flags[self.next];
            self.next = self.next + 1;
            f
        } else {
            false
        }
    }
}

/// The micro-block size cap for a leaf of `len` items: one more than the
/// integer square root of `len`.  This pins `c` uniquely.
pub open spec fn is_block_cap(c: usize, len: usize) -> bool {
    1 <= c && (c - 1) * (c - 1) <= len && len < c * c
}

/// The micro-block size at position `i` of a leaf whose cap is `c`: the
/// power `2^i`, capped at `c`.
pub open spec fn block_size(c: usize, i: int) -> usize {
    if times_pow2(1, i as nat) <= c {
        times_pow2(1, i as nat) as usize
    } else {
        c
    }
}

/// The first `count` micro-block sizes for a leaf of `len` items: exactly
/// the doubling sequence `1, 2, 4, ...`, capped (and then held) at one more
/// than the integer square root of `len` — the cap that keeps the total
/// polling overhead of a leaf near the square root of its length.
pub fn micro_blocks_sizes(len: usize, count: usize) -> (r: Vec<usize>)
    ensures
        r@.len() == count,
        count > 0 ==> r@[0] == 1,
        forall|i: int| 0 <= i < count ==> 1 <= #[trigger] r@[i],
        exists|c: usize|
            #![auto]
            is_block_cap(c, len) && (forall|i: int|
                0 <= i < count ==> #[trigger] r@[i] == block_size(c, i)),
{
    let cap = crate::utils::int_sqrt(len) + 1;
    proof {
        assert(is_block_cap(cap, len));
        assert(times_pow2(1, 0) == 1);
    }
    let mut r: Vec<usize> = Vec::new();
    let mut size: usize = 1;
    let mut i: usize = 0;
    while i < count
        invariant
            i <= count,
            r@.len() == i,
            1 <= size <= cap,
            is_block_cap(cap, len),
            size == block_size(cap, i as int),
            forall|j: int| 0 <= j < i ==> #[trigger] r@[j] == block_size(cap, j),
            forall|j: int| 0 <= j < i ==> 1 <= #[trigger] r@[j],
        decreases count - i,
    {
        r.push(size);
        proof {
            let p = times_pow2(1, i as nat);
            assert(times_pow2(1, (i + 1) as nat) == 2 * p);
            assert(cap == 2 * (cap / 2) + cap % 2);
            if size <= cap / 2 {
                // the doubled power still fits under the cap
                assert(p <= cap / 2);
                assert(2 * p <= cap);
            } else {
                // the doubled power overshoots the cap, which is held
                assert(2 * p > cap);
            }
        }
        size = if size <= cap / 2 {
            size * 2
        } else {
            cap
        };
        i = i + 1;
    }
    proof {
        if count > 0 {
            assert(r@[0] == block_size(cap, 0));
        }
        assert(is_block_cap(cap, len) && (forall|j: int|
            0 <= j < count ==> #[trigger] r@[j] == block_size(cap, j)));
    }
    r
}

/// Fold a batch of extracted items into the accumulator, left to right.
pub fn fold_items<Item: Copy, R: Reducer<Item>>(
    reducer: &R,
    items: &Vec<Item>,
    acc: R::Output,
) -> (out: R::Output)
    ensures
        reducer.model(out) == ffold(*reducer, items@, reducer.model(acc)),
{
    let ghost init = reducer.model(acc);
    let mut acc = acc;
    let mut i: usize = 0;
    while i < items.len()
        invariant
            i <= items@.len(),
            reducer.model(acc) == ffold(*reducer, items@.subrange(0, i as int), init),
        decreases items@.len() - i,
    {
        proof {
            lemma_ffold_push(*reducer, items@.subrange(0, i as int), items@[i as int], init);
            assert(items@.subrange(0, i as int).push(items@[i as int]) =~= items@.subrange(
                0,
                i as int + 1,
            ));
        }
        acc = reducer.fold_item(acc, items[i]);
        i = i + 1;
    }
    proof {
        assert(items@.subrange(0, items@.len() as int) =~= items@);
    }
    acc
}

/// Plain sequential reduction: extract everything and fold it.
pub fn sequential_reduce<D: Edible, R: Reducer<D::Item>>(
    domain: D,
    reducer: &R,
    output: R::Output,
) -> (out: R::Output)
    requires
        domain.wf(),
    ensures
        reducer.model(out) == ffold(*reducer, domain.elements(), reducer.model(output)),
{
    let len = domain.base_length();
    let (items, _rest) = domain.iter(len);
    proof {
        assert(items@ =~= domain.elements());
    }
    fold_items(reducer, &items, output)
}

/// Phase A, eager divide: while the domain is longer than `threshold`,
/// split it evenly and reduce both halves, combining the results in
/// left-to-right order; at or below the threshold, hand the leaf to the
/// adaptive phase.
pub fn schedule_reduce<D, R, S>(
    domain: D,
    reducer: &R,
    output: R::Output,
    signal: &mut S,
    threshold: usize,
    lower: usize,
    upper: usize,
) -> (out: R::Output) where D: Edible, R: Reducer<D::Item>, S: StealSignal
    requires
        domain.wf(),
    ensures
        reducer.model(out) == ffold(*reducer, domain.elements(), reducer.model(output)),
    decreases domain.elements().len(), 1int,
{
    let len = domain.base_length();
    if len > threshold && len >= 2 {
        let ghost init = reducer.model(output);
        let (left, right) = domain.divide();
        let left_answer = schedule_reduce(left, reducer, output, signal, threshold, lower, upper);
        let id = reducer.identity();
        let right_answer = schedule_reduce(right, reducer, id, signal, threshold, lower, upper);
        let combined = reducer.op(left_answer, right_answer);
        proof {
            lemma_combine(*reducer, reducer.model(left_answer), right.elements());
            lemma_ffold_concat(*reducer, left.elements(), right.elements(), init);
        }
        combined
    } else {
        schedule_adaptive(domain, reducer, output, signal, threshold, lower, upper)
    }
}

/// How the victim's block loop can end.
pub enum VictimOutcome<D, T> {
    /// The leaf was folded to completion (or the remainder was too small to
    /// be worth dividing and was finished in place): nothing to hand off.
    Done(T),
    /// A thief was found waiting and the remainder was worth dividing: the
    /// accumulator so far, the half to keep reducing, and the half to hand
    /// off, in element order.
    Handoff(T, D, D),
}

/// What the victim's block loop guarantees: a `Done` accumulator is the
/// whole fold; a `Handoff` splits the elements into a consumed prefix,
/// already folded into the accumulator, and two well-formed, non-empty,
/// strictly smaller halves in order.
pub open spec fn victim_post<D: Divisible, R: Reducer<D::Item>>(
    reducer: R,
    elems: Seq<D::Item>,
    init: R::Model,
    vo: VictimOutcome<D, R::Output>,
) -> bool {
    match vo {
        VictimOutcome::Done(t) => reducer.model(t) == ffold(reducer, elems, init),
        VictimOutcome::Handoff(t, mine, his) => mine.wf() && his.wf()
            && 0 < mine.elements().len() && 0 < his.elements().len()
            && mine.elements().len() < elems.len() && his.elements().len() < elems.len()
            && exists|consumed: Seq<D::Item>|
            #![auto]
            elems == (consumed + mine.elements()) + his.elements() && reducer.model(t) == ffold(
                reducer,
                consumed,
                init,
            ),
    }
}

/// The victim's block loop: consume micro-blocks whose sizes grow
/// geometrically from `lower` up to `upper`, polling the steal signal before
/// each block.  Stop early when a thief is found waiting; if the remainder
/// is then too small to be worth dividing, finish folding it in place,
/// otherwise split it evenly and report the handoff.  Block sizes start at
/// 1, so bounds below that, or in the wrong order, are raised first.
pub fn victim_phase<D, R, S>(
    domain: D,
    reducer: &R,
    output: R::Output,
    signal: &mut S,
    lower: usize,
    upper: usize,
) -> (vo: VictimOutcome<D, R::Output>) where D: Edible, R: Reducer<D::Item>, S: StealSignal
    requires
        domain.wf(),
    ensures
        victim_post(*reducer, domain.elements(), reducer.model(output), vo),
{
    let lower = if lower >= 1 {
        lower
    } else {
        1
    };
    let upper = if upper >= lower {
        upper
    } else {
        lower
    };
    let ghost orig = domain.elements();
    let ghost init = reducer.model(output);
    let mut iterator = domain;
    let mut output = output;
    let mut remaining = iterator.base_length();
    let mut size = lower;
    let mut stolen = false;
    let ghost mut consumed: Seq<D::Item> = Seq::empty();
    while !stolen && remaining > 0
        invariant
            iterator.wf(),
            remaining == iterator.elements().len(),
            1 <= size <= upper,
            orig == consumed + iterator.elements(),
            reducer.model(output) == ffold(*reducer, consumed, init),
        decreases iterator.elements().len(), (if stolen {
            0int
        } else {
            1int
        }),
    {
        if signal.poll() {
            stolen = true;
        } else {
            let s = if size <= remaining {
                size
            } else {
                remaining
            };
            let (items, rest) = iterator.iter(s);
            output = fold_items(reducer, &items, output);
            proof {
                lemma_ffold_concat(*reducer, consumed, items@, init);
                assert(iterator.elements() =~= items@ + rest.elements());
                assert((consumed + items@) + rest.elements() =~= consumed + iterator.elements());
                consumed = consumed + items@;
            }
            iterator = rest;
            remaining = remaining - s;
            size = if size <= upper / 2 {
                size * 2
            } else {
                upper
            };
        }
    }
    if !stolen {
        // The leaf is complete.
        proof {
            assert(consumed + iterator.elements() =~= consumed);
        }
        VictimOutcome::Done(output)
    } else if remaining <= upper {
        // The remainder is below the split threshold: finish it in place.
        let (items, _rest) = iterator.iter(remaining);
        let finished = fold_items(reducer, &items, output);
        proof {
            lemma_ffold_concat(*reducer, consumed, items@, init);
            assert(items@ =~= iterator.elements());
            assert(consumed + iterator.elements() =~= consumed + items@);
        }
        VictimOutcome::Done(finished)
    } else {
        // The remainder is worth dividing: split it evenly.
        let (mine, his) = iterator.divide();
        proof {
            assert((consumed + mine.elements()) + his.elements() =~= consumed
                + iterator.elements());
            assert(orig == (consumed + mine.elements()) + his.elements());
        }
        VictimOutcome::Handoff(output, mine, his)
    }
}

/// Phase B, the adaptive leaf: run the victim's block loop; on completion
/// cancel any future thief through the one-shot channel, on a handoff send
/// the right half to the waiting thief and keep reducing the left half.
/// The thief's contribution is combined on the right, preserving the
/// original element order.
pub fn schedule_adaptive<D, R, S>(
    domain: D,
    reducer: &R,
    output: R::Output,
    signal: &mut S,
    threshold: usize,
    lower: usize,
    upper: usize,
) -> (out: R::Output) where D: Edible, R: Reducer<D::Item>, S: StealSignal
    requires
        domain.wf(),
    ensures
        reducer.model(out) == ffold(*reducer, domain.elements(), reducer.model(output)),
    decreases domain.elements().len(), 0int,
{
    let ghost orig = domain.elements();
    let ghost init = reducer.model(output);
    let mut channel: SmallChannel<D> = SmallChannel::new();
    match victim_phase(domain, reducer, output, signal, lower, upper) {
        VictimOutcome::Done(t) => {
            // The leaf is complete: cancel any thief that may still arrive.
            channel.send(None);
            let migrated = signal.poll();
            if migrated {
                channel.register_waiting();
                let msg = channel.receive();
                proof {
                    assert(msg is None);
                }
            }
            t
        },
        VictimOutcome::Handoff(t, mine, his) => {
            // A thief is waiting — it registered before the victim's poll
            // saw it: hand the right half over and keep reducing the left.
            channel.register_waiting();
            channel.send(Some(his));
            let left_answer = schedule_reduce(mine, reducer, t, signal, threshold, lower, upper);
            let msg = channel.receive();
            let handed = msg.unwrap();
            let id = reducer.identity();
            let right_answer = schedule_reduce(
                handed,
                reducer,
                id,
                signal,
                threshold,
                lower,
                upper,
            );
            let combined = reducer.op(left_answer, right_answer);
            proof {
                let consumed = choose|c: Seq<D::Item>|
                    #![auto]
                    orig == (c + mine.elements()) + his.elements() && reducer.model(t) == ffold(
                        *reducer,
                        c,
                        init,
                    );
                lemma_combine(*reducer, reducer.model(left_answer), his.elements());
                lemma_ffold_concat(*reducer, consumed, mine.elements(), init);
                lemma_ffold_concat(*reducer, consumed + mine.elements(), his.elements(), init);
            }
            combined
        },
    }
}

} // verus!
