//! The partition law and the other divisibility contracts, on concrete
//! domains, plus the small block-size helpers.

use rayon_adaptive::divisibility::RangeDomain;
use rayon_adaptive::iter::Iter;
use rayon_adaptive::scheduler::micro_blocks_sizes;
use rayon_adaptive::traits::{
    Divisible, DivisibleIntoBlocks, Edible, IndexedParallelIterator, PeekableIterator,
};
use rayon_adaptive::utils::{int_sqrt, powers};

#[test]
fn range_divide_at_partitions() {
    for i in 0..=10usize {
        let d = RangeDomain::new(5, 15);
        let total = d.base_length();
        let (left, right) = d.divide_at(i);
        assert_eq!(left.base_length() + right.base_length(), total);
        assert_eq!(left.base_length(), i);
        assert_eq!((left.start, left.end, right.start, right.end), (5, 5 + i as u64, 5 + i as u64, 15));
    }
}

#[test]
fn range_divide_is_balanced() {
    for n in [0u64, 1, 2, 3, 10, 11, 101] {
        let d = RangeDomain::new(100, 100 + n);
        let (left, right) = d.divide();
        assert_eq!(left.base_length() + right.base_length(), n as usize);
        let diff = left.base_length().abs_diff(right.base_length());
        assert!(diff <= 1);
    }
}

#[test]
fn range_cut_left_at_shrinks_in_place() {
    let mut d = RangeDomain::new(0, 10);
    let left = d.cut_left_at(4);
    assert_eq!((left.start, left.end), (0, 4));
    assert_eq!((d.start, d.end), (4, 10));
    assert!(!d.is_empty());
    let rest = d.cut_left_at(6);
    assert_eq!((rest.start, rest.end), (4, 10));
    assert!(d.is_empty());
}

#[test]
fn range_extraction_yields_prefix() {
    let d = RangeDomain::new(3, 11);
    let (items, rest) = d.iter(5);
    assert_eq!(items, vec![3, 4, 5, 6, 7]);
    assert_eq!((rest.start, rest.end), (8, 11));
}

#[test]
fn slice_divide_at_partitions() {
    let data: Vec<u64> = (0..9).collect();
    for i in 0..=9usize {
        let d = Iter::new(&data);
        let (left, right) = d.divide_at(i);
        assert_eq!(left.base_length() + right.base_length(), 9);
        assert_eq!(left.slice, &data[..i]);
        assert_eq!(right.slice, &data[i..]);
    }
}

#[test]
fn slice_divide_is_balanced() {
    let data: Vec<u64> = (0..7).collect();
    let (left, right) = Iter::new(&data).divide();
    assert_eq!(left.slice, &[0, 1, 2]);
    assert_eq!(right.slice, &[3, 4, 5, 6]);
}

#[test]
fn slice_extraction_and_peek() {
    let data: Vec<u64> = vec![9, 8, 7, 6, 5];
    let d = Iter::new(&data);
    assert_eq!(d.peek(0), 9);
    assert_eq!(d.peek(4), 5);
    let (items, rest) = d.iter(2);
    assert_eq!(items, vec![9, 8]);
    assert_eq!(rest.slice, &[7, 6, 5]);
}

#[test]
fn slice_take_keeps_prefix() {
    let data: Vec<u64> = vec![1, 2, 3, 4, 5];
    let taken = Iter::new(&data).take(3);
    assert_eq!(taken.slice, &[1, 2, 3]);
}

#[test]
fn slice_cut_left_at_shrinks_in_place() {
    let data: Vec<u64> = vec![1, 2, 3, 4, 5];
    let mut d = Iter::new(&data);
    let left = d.cut_left_at(2);
    assert_eq!(left.slice, &[1, 2]);
    assert_eq!(d.slice, &[3, 4, 5]);
}

#[test]
fn powers_doubles_from_start() {
    assert_eq!(powers(1, 5), vec![2, 4, 8, 16, 32]);
    assert_eq!(powers(3, 3), vec![6, 12, 24]);
    assert_eq!(powers(10, 0), Vec::<usize>::new());
}

#[test]
fn int_sqrt_exact_values() {
    assert_eq!(int_sqrt(0), 0);
    assert_eq!(int_sqrt(1), 1);
    assert_eq!(int_sqrt(3), 1);
    assert_eq!(int_sqrt(4), 2);
    assert_eq!(int_sqrt(99), 9);
    assert_eq!(int_sqrt(100), 10);
    assert_eq!(int_sqrt(10001), 100);
}

#[test]
fn micro_blocks_grow_to_sqrt_cap() {
    // For a leaf of 100 items the cap is sqrt(100) + 1 = 11.
    assert_eq!(micro_blocks_sizes(100, 6), vec![1, 2, 4, 8, 11, 11]);
    assert_eq!(micro_blocks_sizes(0, 3), vec![1, 1, 1]);
}
