//! Adaptive parallel reductions over splittable work domains.
//!
//! A *divisible domain* describes an ordered, finite collection of pending
//! work that can be split at any index into two disjoint, order-preserving
//! halves.  A reduction walks such a domain with a user-supplied combining
//! capability (an identity, a per-item fold and an associative combine) and
//! is scheduled either sequentially, by eager recursive halving down to a
//! size threshold, or adaptively: the owner of a leaf consumes work in
//! geometrically growing micro-blocks, polling a one-shot steal channel
//! between blocks and splitting only when a thief is actually waiting.
//!
//! Every scheduling strategy is proved to return exactly the sequential
//! left-to-right fold of the domain's elements.

use vstd::prelude::*;

pub mod divisibility;
pub mod executor;
pub mod iter;
pub mod reducer;
pub mod scheduler;
pub mod small_channel;
pub mod traits;
pub mod utils;

verus! {

/// Scheduling strategies for a reduction.
///
/// `Rayon` and `Join` both split eagerly down to the given size threshold and
/// then run each leaf sequentially.  `Adaptive` runs each leaf with the
/// steal-aware strategy, growing micro-block sizes between the two given
/// bounds.  `Sequential` performs a plain left fold.
#[derive(Clone, Copy, Debug, PartialEq, Eq, Structural)]
pub enum Policy {
    /// Use the executor's own scheduling: eager splitting to the given size.
    Rayon(usize),
    /// Split recursively until the given size is reached.
    Join(usize),
    /// Split adaptively according to steal requests; micro-block sizes stay
    /// between the two given bounds.
    Adaptive(usize, usize),
    /// Just run sequentially.
    Sequential,
}

} // verus!
