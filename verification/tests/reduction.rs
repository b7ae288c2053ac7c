//! Reduction equivalence across scheduling strategies and steal patterns.

use rayon_adaptive::iter::{range_domain, reduce};
use rayon_adaptive::reducer::SumReducer;
use rayon_adaptive::scheduler::{
    schedule_adaptive, schedule_reduce, sequential_reduce, victim_phase, AlwaysSteal, NeverSteal,
    PollSequence, VictimOutcome,
};
use rayon_adaptive::traits::Divisible;
use rayon_adaptive::Policy;

#[test]
fn sum_range_sequential() {
    let d = range_domain(0, 100000);
    assert_eq!(reduce(d, &SumReducer, Policy::Sequential), 4999950000u64);
}

#[test]
fn sum_range_parallel_join() {
    let d = range_domain(0, 100000);
    assert_eq!(reduce(d, &SumReducer, Policy::Join(1024)), 4999950000u64);
}

#[test]
fn sum_range_parallel_rayon() {
    let d = range_domain(0, 100000);
    assert_eq!(reduce(d, &SumReducer, Policy::Rayon(512)), 4999950000u64);
}

#[test]
fn sum_range_parallel_adaptive() {
    let d = range_domain(0, 100000);
    assert_eq!(reduce(d, &SumReducer, Policy::Adaptive(1, 64)), 4999950000u64);
}

#[test]
fn sum_range_forced_steal() {
    // A signal that reports a waiting thief on every single check: maximal
    // stealing pressure must not change the result.
    let d = range_domain(0, 100000);
    let mut signal = AlwaysSteal;
    let out = schedule_reduce(d, &SumReducer, 0, &mut signal, 1000, 1, 32);
    assert_eq!(out, 4999950000u64);
}

#[test]
fn sum_range_no_steal() {
    // When no thief ever shows up, the adaptive leaf is a plain fold.
    let d = range_domain(0, 100000);
    let mut signal = NeverSteal;
    let out = schedule_reduce(d, &SumReducer, 0, &mut signal, 1000, 1, 32);
    assert_eq!(out, 4999950000u64);
}

#[test]
fn sum_range_mixed_steal_pattern() {
    let d = range_domain(0, 10000);
    let mut flags = Vec::new();
    for i in 0..200usize {
        flags.push(i % 3 == 1 || i % 7 == 2);
    }
    let mut signal = PollSequence { flags, next: 0 };
    let out = schedule_reduce(d, &SumReducer, 0, &mut signal, 500, 1, 16);
    assert_eq!(out, 49995000u64);
}

#[test]
fn adaptive_leaf_direct_forced_steal() {
    // Drive the adaptive phase directly, with a thief waiting on every poll.
    let d = range_domain(0, 5000);
    let mut signal = AlwaysSteal;
    let out = schedule_adaptive(d, &SumReducer, 0, &mut signal, 500, 1, 8);
    assert_eq!(out, 12497500u64);
}

#[test]
fn reduce_empty_range() {
    let d = range_domain(17, 17);
    assert_eq!(reduce(d, &SumReducer, Policy::Sequential), 0);
    let d = range_domain(17, 17);
    assert_eq!(reduce(d, &SumReducer, Policy::Adaptive(1, 4)), 0);
    let d = range_domain(17, 17);
    let mut signal = AlwaysSteal;
    assert_eq!(schedule_reduce(d, &SumReducer, 0, &mut signal, 4, 1, 4), 0);
}

#[test]
fn reduce_single_element() {
    let d = range_domain(41, 42);
    assert_eq!(reduce(d, &SumReducer, Policy::Sequential), 41);
    let d = range_domain(41, 42);
    assert_eq!(reduce(d, &SumReducer, Policy::Adaptive(1, 4)), 41);
    let d = range_domain(41, 42);
    let mut signal = AlwaysSteal;
    assert_eq!(schedule_reduce(d, &SumReducer, 0, &mut signal, 4, 1, 4), 41);
}

#[test]
fn sequential_reduce_continues_accumulator() {
    let d = range_domain(1, 5);
    // 100 + 1 + 2 + 3 + 4
    assert_eq!(sequential_reduce(d, &SumReducer, 100), 110);
}

#[test]
fn wrapping_sum_wraps_around() {
    let d = range_domain(u64::MAX - 1, u64::MAX);
    // id + (MAX - 1) + 2 wraps to 0.
    let mut signal = NeverSteal;
    let out = schedule_reduce(d, &SumReducer, 2, &mut signal, 4, 1, 4);
    assert_eq!(out, 0);
}

#[test]
fn victim_phase_hands_off_under_pressure() {
    let d = range_domain(0, 100);
    let mut signal = AlwaysSteal;
    match victim_phase(d, &SumReducer, 0, &mut signal, 1, 4) {
        VictimOutcome::Done(_) => panic!("a waiting thief must trigger a handoff"),
        VictimOutcome::Handoff(acc, mine, his) => {
            // The first poll already reports a thief: nothing was consumed
            // and the whole range was split evenly.
            assert_eq!(acc, 0);
            assert_eq!(mine.base_length(), 50);
            assert_eq!(his.base_length(), 50);
        }
    }
}

#[test]
fn victim_phase_completes_in_quiet() {
    let d = range_domain(0, 100);
    let mut signal = NeverSteal;
    match victim_phase(d, &SumReducer, 0, &mut signal, 1, 4) {
        VictimOutcome::Done(total) => assert_eq!(total, 4950),
        VictimOutcome::Handoff(..) => panic!("no thief ever waited"),
    }
}

#[test]
fn victim_phase_finishes_small_remainder_in_place() {
    // One quiet poll consumes a first block; the second poll reports a
    // thief, but only a below-threshold remainder is left: it is folded in
    // place rather than split.
    let d = range_domain(0, 3);
    let mut signal = PollSequence { flags: vec![false, true], next: 0 };
    match victim_phase(d, &SumReducer, 0, &mut signal, 2, 8) {
        VictimOutcome::Done(total) => assert_eq!(total, 3),
        VictimOutcome::Handoff(..) => panic!("a tiny remainder is not worth dividing"),
    }
}

#[test]
fn with_policy_pairs_and_reduces() {
    let paired = range_domain(0, 1000).with_policy(Policy::Adaptive(1, 16));
    assert_eq!(paired.reduce(&SumReducer), 499500);
    let paired = range_domain(0, 1000).with_policy(Policy::Sequential);
    assert_eq!(paired.reduce(&SumReducer), 499500);
}

#[test]
fn degenerate_block_bounds_are_raised() {
    // Block sizes start at 1, so zero or inverted bounds are raised rather
    // than looping on empty blocks.
    let d = range_domain(0, 1000);
    let mut signal = AlwaysSteal;
    assert_eq!(schedule_reduce(d, &SumReducer, 0, &mut signal, 100, 0, 0), 499500);
    let d = range_domain(0, 1000);
    let mut signal = NeverSteal;
    assert_eq!(schedule_reduce(d, &SumReducer, 0, &mut signal, 100, 9, 2), 499500);
    let d = range_domain(0, 1000);
    assert_eq!(reduce(d, &SumReducer, Policy::Adaptive(0, 0)), 499500);
}
