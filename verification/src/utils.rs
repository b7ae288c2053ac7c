//! Small verified helpers shared by the schedulers.

use vstd::arithmetic::div_mod::lemma_fundamental_div_mod;
use vstd::arithmetic::div_mod::lemma_mod_bound;
use vstd::prelude::*;

verus! {

/// The value `v * 2^k`, used to describe geometric block-size growth.
pub open spec fn times_pow2(v: nat, k: nat) -> nat
    decreases k,
{
    if k == 0 {
        v
    } else {
        2 * times_pow2(v, (k - 1) as nat)
    }
}

/// Growth is monotonic in the exponent.
pub proof fn lemma_times_pow2_le(v: nat, i: nat, j: nat)
    requires
        i <= j,
    ensures
        times_pow2(v, i) <= times_pow2(v, j),
    decreases j - i,
{
    if i < j {
        lemma_times_pow2_le(v, i, (j - 1) as nat);
    }
}

/// The first `count` values of the doubling sequence that starts at
/// `starting_value`: `starting_value * 2`, `starting_value * 4`, and so on.
pub fn powers(starting_value: usize, count: usize) -> (r: Vec<usize>)
    requires
        times_pow2(starting_value as nat, count as nat) <= usize::MAX,
    ensures
        r@.len() == count,
        forall|i: int|
            0 <= i < count ==> #[trigger] r@[i] == times_pow2(starting_value as nat, (i + 1) as nat),
{
    let mut r: Vec<usize> = Vec::new();
    let mut current: usize = starting_value;
    let mut i: usize = 0;
    while i < count
        invariant
            i <= count,
            r@.len() == i,
            current == times_pow2(starting_value as nat, i as nat),
            times_pow2(starting_value as nat, count as nat) <= usize::MAX,
            forall|j: int|
                0 <= j < i ==> #[trigger] r@[j] == times_pow2(
                    starting_value as nat,
                    (j + 1) as nat,
                ),
        decreases count - i,
    {
        proof {
            lemma_times_pow2_le(starting_value as nat, (i + 1) as nat, count as nat);
        }
        current = current * 2;
        r.push(current);
        i = i + 1;
    }
    r
}

/// The integer square root: the largest `r` with `r * r <= n`.
pub fn int_sqrt(n: usize) -> (r: usize)
    ensures
        r * r <= n,
        n < (r + 1) * (r + 1),
        r < usize::MAX,
{
    proof {
        assert(usize::MAX >= 3);
    }
    let mut r: usize = 0;
    while r < usize::MAX && r + 1 <= n / (r + 1)
        invariant
            r * r <= n,
            r <= n,
        decreases n - r,
    {
        proof {
            let b = (r + 1) as int;
            let ni = n as int;
            lemma_fundamental_div_mod(ni, b);
            lemma_mod_bound(ni, b);
            assert((r + 1) * (r + 1) <= n) by (nonlinear_arith)
                requires
                    ni == b * (ni / b) + ni % b,
                    0 <= ni % b,
                    b <= ni / b,
                    b == r as int + 1,
                    ni == n as int,
            ;
        }
        r = r + 1;
    }
    proof {
        if r == usize::MAX {
            assert(false) by (nonlinear_arith)
                requires
                    r * r <= n,
                    n <= usize::MAX,
                    r == usize::MAX,
                    usize::MAX >= 0xffff_ffff,
            ;
        } else {
            let b = (r + 1) as int;
            let ni = n as int;
            lemma_fundamental_div_mod(ni, b);
            lemma_mod_bound(ni, b);
            assert(r < usize::MAX) by (nonlinear_arith)
                requires
                    r * r <= n,
                    n <= usize::MAX,
                    usize::MAX >= 3,
            ;
            assert(n < (r + 1) * (r + 1)) by (nonlinear_arith)
                requires
                    ni == b * (ni / b) + ni % b,
                    ni % b < b,
                    ni / b <= r as int,
                    b == r as int + 1,
                    ni == n as int,
            ;
        }
    }
    r
}

} // verus!
