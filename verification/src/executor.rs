//! The fork-join executor boundary, and the parallel schedulers built on it.
//!
//! The executor supplies the two primitives the schedulers need: a symmetric
//! `fork(A, B)` running two closures possibly on different workers, and an
//! asymmetric [`adaptive_fork`] that also wires up the steal flag and the
//! one-shot handoff between a victim and a possibly-migrated thief.  Each
//! trusted item states over `call_requires`/`call_ensures` exactly what the
//! executor and the handoff guarantee; everything on top of them is
//! verified.

use crate::reducer::ffold;
use crate::reducer::lemma_combine;
use crate::reducer::lemma_ffold_concat;
use crate::reducer::Reducer;
use crate::scheduler::sequential_reduce;
use crate::scheduler::victim_phase;
use crate::scheduler::victim_post;
use crate::scheduler::StealSignal;
use crate::scheduler::VictimOutcome;
use crate::traits::Edible;
use std::sync::atomic::AtomicBool;
use std::sync::atomic::Ordering;
use std::sync::Arc;
use vstd::prelude::*;

verus! {

/// The steal probe a real victim polls: a shared flag that the thief's
/// worker raises, once and monotonically, just before it blocks on the
/// handoff channel.  Nothing is assumed about the answers — they depend on
/// scheduling — so every caller is verified against all of them.
pub struct StealFlag {
    /// Raised by a migrated thief just before it waits for the handoff.
    flag: Arc<AtomicBool>,
}

impl StealSignal for StealFlag {
    fn poll(&mut self) -> bool {
        self.flag.load(Ordering::Relaxed)
    }
}

/// Relies on `rayon::join`: it calls both closures to completion, possibly
/// on different workers, and returns the pair of their results.
#[verifier::external_body]
pub fn fork<A, B, RA, RB>(oper_a: A, oper_b: B) -> (r: (RA, RB)) where
    A: FnOnce() -> RA + Send,
    B: FnOnce() -> RB + Send,
    RA: Send,
    RB: Send,

    requires
        call_requires(oper_a, ()),
        call_requires(oper_b, ()),
    ensures
        call_ensures(oper_a, (), r.0),
        call_ensures(oper_b, (), r.1),
{
    rayon::join(oper_a, oper_b)
}

/// What [`adaptive_fork`] guarantees: for some flag handle and some victim
/// outcome that the victim's own contract admits, the result is — on `Done`
/// — the victim's accumulator alone, and — on `Handoff` — the pair of a
/// `cont` result on the kept half and a `thief` result on the handed-off
/// half, each admitted by that closure's contract.
pub open spec fn adaptive_fork_post<D, T, V, K, B>(
    victim: V,
    cont: K,
    thief: B,
    r: (T, Option<T>),
) -> bool where
    V: FnOnce(StealFlag) -> VictimOutcome<D, T>,
    K: FnOnce(T, D) -> T,
    B: Fn(D) -> T,
 {
    exists|f: StealFlag, vo: VictimOutcome<D, T>|
        #![auto]
        call_ensures(victim, (f,), vo) && match vo {
            VictimOutcome::Done(t) => r.0 == t && r.1 is None,
            VictimOutcome::Handoff(t, mine, his) => call_ensures(cont, (t, mine), r.0) && (exists|
                tr: T,
            |
                #![auto]
                call_ensures(thief, (his,), tr) && r.1 == Some(tr)),
        }
}

#[verifier::external_type_specification]
#[verifier::external_body]
#[verifier::reject_recursive_types(T)]
pub struct ExSender<T>(std::sync::mpsc::Sender<T>);

#[verifier::external_type_specification]
#[verifier::external_body]
#[verifier::reject_recursive_types(T)]
pub struct ExReceiver<T>(std::sync::mpsc::Receiver<T>);

/// What [`victim_side`] guarantees: for some flag handle and some victim
/// outcome that the victim's own contract admits, the result is — on `Done`
/// — the accumulator alone, and — on `Handoff` — a `cont` result on the
/// kept half, next to either nothing (the handed-off half went to a waiting
/// thief) or an inline `th` result on that half.
pub open spec fn victim_side_post<D, T, V, K, B>(
    victim: V,
    cont: K,
    th: B,
    r: (T, Option<T>),
) -> bool where
    V: FnOnce(StealFlag) -> VictimOutcome<D, T>,
    K: FnOnce(T, D) -> T,
    B: Fn(D) -> T,
 {
    exists|f: StealFlag, vo: VictimOutcome<D, T>|
        #![auto]
        call_ensures(victim, (f,), vo) && match vo {
            VictimOutcome::Done(t) => r.0 == t && r.1 is None,
            VictimOutcome::Handoff(t, mine, his) => call_ensures(cont, (t, mine), r.0) && match r.1 {
                None => true,
                Some(tr) => call_ensures(th, (his,), tr),
            },
        }
}

/// What [`thief_side`] guarantees: any contribution is a result of `th` on
/// some handed-off piece.
pub open spec fn thief_side_post<D, T, B>(th: B, r: Option<T>) -> bool where B: Fn(D) -> T {
    match r {
        None => true,
        Some(tr) => exists|d: D| #![auto] call_ensures(th, (d,), tr),
    }
}

/// The victim's side of a handoff.  Relies on `std::sync::mpsc::Sender::send`
/// and `AtomicBool::load`: every path sends exactly once, so the matching
/// receive never blocks forever.  On `Done` the message is the cancel `None`
/// and the accumulator is returned alone.  On `Handoff` the right half is
/// either sent to the waiting thief the raised flag proves (then the second
/// component is `None`), or, when no thief is waiting, reduced right here by
/// `thief` after the cancel was sent in its place: either way the first
/// component is `cont` of the kept half.
#[verifier::external_body]
fn victim_side<D, T, V, K, B>(
    victim: V,
    cont: K,
    th: &B,
    tx: std::sync::mpsc::Sender<Option<D>>,
    flag: Arc<AtomicBool>,
) -> (r: (T, Option<T>)) where
    V: FnOnce(StealFlag) -> VictimOutcome<D, T>,
    K: FnOnce(T, D) -> T,
    B: Fn(D) -> T,

    requires
        forall|f: StealFlag| #![auto] call_requires(victim, (f,)),
        forall|f: StealFlag, vo: VictimOutcome<D, T>| #![auto]
            call_ensures(victim, (f,), vo) ==> match vo {
                VictimOutcome::Done(_) => true,
                VictimOutcome::Handoff(t, mine, his) => call_requires(cont, (t, mine))
                    && call_requires(*th, (his,)),
            },
    ensures
        victim_side_post(victim, cont, *th, r),
{
    match victim(StealFlag { flag: flag.clone() }) {
        VictimOutcome::Done(t) => { let _ = tx.send(None); (t, None) },
        VictimOutcome::Handoff(t, m, h) => if flag.load(Ordering::SeqCst) {
            let _ = tx.send(Some(h)); (cont(t, m), None)
        } else { let _ = tx.send(None); (cont(t, m), Some(th(h))) },
    }
}

/// The thief's side of a handoff.  Relies on `AtomicBool::store` and
/// `std::sync::mpsc::Receiver::recv`: raise the waiting flag, then block for
/// the one message; a received `None` is a cancel.  Any contribution is a
/// result of `th` on some handed-off piece.  The closure must accept
/// whatever value arrives, and the matching sender must send exactly once or
/// hang up, else the receive blocks forever — [`adaptive_fork`]'s victim
/// side guarantees the one send.
#[verifier::external_body]
fn thief_side<D, T, B>(
    rx: std::sync::mpsc::Receiver<Option<D>>,
    flag: Arc<AtomicBool>,
    th: &B,
) -> (r: Option<T>) where B: Fn(D) -> T
    requires
        forall|d: D| #![auto] call_requires(*th, (d,)),
    ensures
        thief_side_post(*th, r),
{
    flag.store(true, Ordering::SeqCst);
    match rx.recv() { Ok(Some(d)) => Some(th(d)), _ => None }
}

/// Relies on `rayon::join_context` and `std::sync::mpsc::channel`, composing
/// [`victim_side`] and [`thief_side`] over a private flag and a private
/// one-shot channel, as follows.  The victim runs first on the calling
/// worker, polling the flag; a second worker that steals the other side
/// raises the flag and then blocks on the channel.  Every victim path sends
/// exactly once, so the thief never blocks forever.  When the victim reports
/// a handoff, the right half reaches `thief` exactly once: through the
/// channel when the flag shows a waiting thief (the flag is raised only by a
/// migrated thief, before it receives), or inline on the victim's worker
/// otherwise, the cancel `None` having been sent in its place.  So, whatever
/// the timing: on `Done` the result is the victim's accumulator alone, and
/// on `Handoff` it is the pair of `cont` on the kept half and `thief` on the
/// handed-off half.
#[verifier::external_body]
fn adaptive_fork<D, T, V, K, B>(victim: V, cont: K, thief: B) -> (r: (T, Option<T>)) where
    D: Send,
    T: Send,
    V: FnOnce(StealFlag) -> VictimOutcome<D, T> + Send,
    K: FnOnce(T, D) -> T + Send,
    B: Fn(D) -> T + Sync,

    requires
        forall|f: StealFlag| #![auto] call_requires(victim, (f,)),
        forall|f: StealFlag, vo: VictimOutcome<D, T>| #![auto]
            call_ensures(victim, (f,), vo) ==> match vo {
                VictimOutcome::Done(_) => true,
                VictimOutcome::Handoff(t, mine, his) => call_requires(cont, (t, mine))
                    && call_requires(thief, (his,)),
            },
    ensures
        adaptive_fork_post(victim, cont, thief, r),
{
    let flag = Arc::new(AtomicBool::new(false));
    let (tx, rx) = std::sync::mpsc::channel();
    let (flag2, th) = (flag.clone(), &thief);
    let (a, b) = rayon::join_context(
        move |_| victim_side(victim, cont, th, tx, flag),
        move |c| if c.migrated() { thief_side(rx, flag2, th) } else { None },
    );
    (a.0, if b.is_some() { b } else { a.1 })
}

/// Eager parallel divide-and-conquer with plain sequential leaves: split
/// evenly down to `threshold`, reduce the halves through the executor's
/// fork, and combine the results left half first — the result is the
/// sequential left fold, whatever the executor's worker assignment.
pub fn par_join_reduce<D, R>(
    domain: D,
    reducer: &R,
    output: R::Output,
    threshold: usize,
) -> (out: R::Output) where
    D: Edible + Send,
    R: Reducer<D::Item> + Sync,
    R::Output: Send,

    requires
        domain.wf(),
    ensures
        reducer.model(out) == ffold(*reducer, domain.elements(), reducer.model(output)),
    decreases domain.elements().len(),
{
    let len = domain.base_length();
    if len > threshold && len >= 2 {
        let ghost init = reducer.model(output);
        let (left, right) = domain.divide();
        let id = reducer.identity();
        let (left_answer, right_answer) = fork(
            (move || -> (res: R::Output)
                ensures
                    reducer.model(res) == ffold(*reducer, left.elements(), reducer.model(output)),
                { par_join_reduce(left, reducer, output, threshold) }),
            (move || -> (res: R::Output)
                ensures
                    reducer.model(res) == ffold(
                        *reducer,
                        right.elements(),
                        reducer.spec_identity(),
                    ),
                { par_join_reduce(right, reducer, id, threshold) }),
        );
        let combined = reducer.op(left_answer, right_answer);
        proof {
            lemma_combine(*reducer, reducer.model(left_answer), right.elements());
            lemma_ffold_concat(*reducer, left.elements(), right.elements(), init);
        }
        combined
    } else {
        sequential_reduce(domain, reducer, output)
    }
}

/// Phase A of the adaptive strategy on the real executor: split eagerly
/// down to `threshold`, then run each leaf adaptively.
pub fn par_schedule_reduce<D, R>(
    domain: D,
    reducer: &R,
    output: R::Output,
    threshold: usize,
    lower: usize,
    upper: usize,
) -> (out: R::Output) where
    D: Edible + Send,
    R: Reducer<D::Item> + Sync,
    R::Output: Send,

    requires
        domain.wf(),
    ensures
        reducer.model(out) == ffold(*reducer, domain.elements(), reducer.model(output)),
    decreases domain.elements().len(), 1int,
{
    let len = domain.base_length();
    if len > threshold && len >= 2 {
        let ghost init = reducer.model(output);
        let (left, right) = domain.divide();
        let id = reducer.identity();
        let (left_answer, right_answer) = fork(
            (move || -> (res: R::Output)
                ensures
                    reducer.model(res) == ffold(*reducer, left.elements(), reducer.model(output)),
                { par_schedule_reduce(left, reducer, output, threshold, lower, upper) }),
            (move || -> (res: R::Output)
                ensures
                    reducer.model(res) == ffold(
                        *reducer,
                        right.elements(),
                        reducer.spec_identity(),
                    ),
                { par_schedule_reduce(right, reducer, id, threshold, lower, upper) }),
        );
        let combined = reducer.op(left_answer, right_answer);
        proof {
            lemma_combine(*reducer, reducer.model(left_answer), right.elements());
            lemma_ffold_concat(*reducer, left.elements(), right.elements(), init);
        }
        combined
    } else {
        par_schedule_adaptive(domain, reducer, output, threshold, lower, upper)
    }
}

/// Phase B of the adaptive strategy on the real executor: run the victim's
/// block loop against the real steal flag; on a handoff the right half goes
/// to the thief while the victim keeps reducing the left half, and the two
/// contributions are combined left first — so the result is the sequential
/// left fold however many steals actually happened.
pub fn par_schedule_adaptive<D, R>(
    domain: D,
    reducer: &R,
    output: R::Output,
    threshold: usize,
    lower: usize,
    upper: usize,
) -> (out: R::Output) where
    D: Edible + Send,
    R: Reducer<D::Item> + Sync,
    R::Output: Send,

    requires
        domain.wf(),
    ensures
        reducer.model(out) == ffold(*reducer, domain.elements(), reducer.model(output)),
    decreases domain.elements().len(), 0int,
{
    let ghost orig = domain.elements();
    let ghost init = reducer.model(output);
    let elems: Ghost<Seq<D::Item>> = Ghost(domain.elements());
    let victim_cl = (move |sig: StealFlag| -> (vo: VictimOutcome<D, R::Output>)
        ensures
            victim_post(*reducer, domain.elements(), reducer.model(output), vo),
        {
            let mut sig = sig;
            victim_phase(domain, reducer, output, &mut sig, lower, upper)
        });
    let cont_cl = (move |acc: R::Output, mine: D| -> (res: R::Output)
        requires
            mine.wf(),
            mine.elements().len() < elems@.len(),
        ensures
            reducer.model(res) == ffold(*reducer, mine.elements(), reducer.model(acc)),
        { par_schedule_reduce(mine, reducer, acc, threshold, lower, upper) });
    let thief_cl = (move |his: D| -> (res: R::Output)
        requires
            his.wf(),
            his.elements().len() < elems@.len(),
        ensures
            reducer.model(res) == ffold(*reducer, his.elements(), reducer.spec_identity()),
        {
            let id = reducer.identity();
            par_schedule_reduce(his, reducer, id, threshold, lower, upper)
        });
    let (left_result, maybe_right) = adaptive_fork(victim_cl, cont_cl, thief_cl);
    let out = match maybe_right {
        Some(right_result) => reducer.op(left_result, right_result),
        None => left_result,
    };
    proof {
        let (f, vo) = choose|f: StealFlag, vo: VictimOutcome<D, R::Output>|
            #![auto]
            call_ensures(victim_cl, (f,), vo) && match vo {
                VictimOutcome::Done(t) => left_result == t && maybe_right is None,
                VictimOutcome::Handoff(t, mine, his) => call_ensures(
                    cont_cl,
                    (t, mine),
                    left_result,
                ) && exists|tr: R::Output| #![auto]
                    call_ensures(thief_cl, (his,), tr) && maybe_right == Some(tr),
            };
        match vo {
            VictimOutcome::Done(t) => {
            },
            VictimOutcome::Handoff(t, mine, his) => {
                let consumed = choose|c: Seq<D::Item>|
                    #![auto]
                    orig == (c + mine.elements()) + his.elements() && reducer.model(t) == ffold(
                        *reducer,
                        c,
                        init,
                    );
                lemma_combine(*reducer, reducer.model(left_result), his.elements());
                lemma_ffold_concat(*reducer, consumed, mine.elements(), init);
                lemma_ffold_concat(*reducer, consumed + mine.elements(), his.elements(), init);
            },
        }
    }
    out
}

} // verus!
