//! Left-to-right order preservation under stealing: a non-commutative
//! combine (concatenation) must see the elements in their original order,
//! whatever the steal pattern.

use rayon_adaptive::iter::{reduce, FromParallelIterator, Iter};
use rayon_adaptive::reducer::CollectReducer;
use rayon_adaptive::scheduler::{schedule_reduce, AlwaysSteal, NeverSteal};
use rayon_adaptive::Policy;

/// A reversed, then deterministically shuffled copy of `0..n`.  The stride
/// is coprime with every `n` used below, so this walks a permutation.
fn scrambled(n: u64) -> Vec<u64> {
    let reversed: Vec<u64> = (0..n).rev().collect();
    let step = 77usize;
    let out: Vec<u64> = (0..n as usize).map(|i| reversed[(i * step) % n as usize]).collect();
    let mut sorted = out.clone();
    sorted.sort();
    assert!(sorted.iter().copied().eq(0..n));
    out
}

fn markers(indices: &[u64]) -> String {
    let mut s = String::new();
    for i in indices {
        s.push_str(&format!("[{}]", i));
    }
    s
}

#[test]
fn concat_order_zero_steal_vs_forced_steal() {
    let data = scrambled(200);
    let expected = markers(&data);

    let mut never = NeverSteal;
    let quiet = schedule_reduce(Iter::new(&data), &CollectReducer, Vec::new(), &mut never, 32, 1, 8);

    let mut always = AlwaysSteal;
    let stormy =
        schedule_reduce(Iter::new(&data), &CollectReducer, Vec::new(), &mut always, 32, 1, 8);

    assert_eq!(markers(&quiet), expected);
    assert_eq!(markers(&stormy), expected);
    assert_eq!(quiet, stormy);
}

#[test]
fn concat_order_parallel_adaptive() {
    let data = scrambled(1000);
    let expected = markers(&data);
    let out = reduce(Iter::new(&data), &CollectReducer, Policy::Adaptive(1, 16));
    assert_eq!(markers(&out), expected);
}

#[test]
fn concat_order_parallel_join() {
    let data = scrambled(1000);
    let expected = markers(&data);
    let out = reduce(Iter::new(&data), &CollectReducer, Policy::Join(64));
    assert_eq!(markers(&out), expected);
}

#[test]
fn collect_preserves_order() {
    let data: Vec<u64> = (0..5000).map(|i| (i * 37) % 4999).collect();
    let collected: Vec<u64> = Vec::from_par_iter(Iter::new(&data));
    assert_eq!(collected, data);
}

#[test]
fn collect_empty() {
    let data: Vec<u64> = Vec::new();
    let collected: Vec<u64> = Vec::from_par_iter(Iter::new(&data));
    assert!(collected.is_empty());
}
