//! The lock-free atomic counter.
//!
//! A shared integer mutated only by atomic fetch-and-add with sequentially
//! consistent ordering: every increment lands in one global order, so no
//! update is ever lost. A per-call postcondition cannot name the counter's
//! current value — any number of other threads may increment between two
//! calls — so the counting guarantee is stated where it is provable: over
//! increment traces, in `counter_model`, which shows that after K threads
//! finish T increments each a load reads exactly the start value plus K
//! times T, whatever the interleaving was.

use std::sync::atomic::AtomicU64;
use std::sync::atomic::Ordering;
use vstd::prelude::*;

verus! {

/// A shared counter mutated without any guard. Incrementing wraps at
/// `u64::MAX`, as the underlying fetch-and-add does.
pub struct AtomicCounter {
    value: AtomicU64,
}

impl AtomicCounter {
    /// A counter starting at `initial`.
    pub fn new(initial: u64) -> (c: AtomicCounter)
    {
        AtomicCounter { value: AtomicU64::new(initial) }
    }

    /// Atomically adds one under sequentially consistent ordering and
    /// returns the value the counter held just before — a ticket unique to
    /// this increment while the counter does not wrap.
    pub fn increment(&self) -> (previous: u64)
    {
        self.value.fetch_add(1, Ordering::SeqCst)
    }

    /// Atomically reads the current value under the same ordering.
    pub fn load(&self) -> (current: u64)
    {
        self.value.load(Ordering::SeqCst)
    }
}

} // verus!
