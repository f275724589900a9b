//! Mutex-guarded shared state.
//!
//! `Guarded` wraps one value behind a verified exclusive lock and grants
//! access only through `with_lock`, a scoped acquisition: the guard is taken,
//! the caller's closure runs on the value, the (possibly replaced) value is
//! stored back and the guard is released before `with_lock` returns. The
//! underlying lock is `vstd`'s verified `RwLock`, whose own proof rules out
//! two threads holding the write guard at once, so no two closures on the
//! same cell ever run concurrently.
//!
//! Poisoning: a lock is poisoned when a thread dies midway through its
//! critical section. Verified callers cannot fail inside the closure, and
//! the lock used here carries no poison flag, so this implementation takes
//! the documented recovery choice: a later acquisition finds the last value
//! stored and `with_lock` never returns `PoisonedLock`. The error type
//! remains part of the signature so the taxonomy is explicit at the API.
//!
//! `acquire_both` is the dual-resource coordinator: the one public way to
//! hold two cells at once. It takes the first cell's guard strictly before
//! the second's, and every caller that passes each pair of cells in one
//! agreed order therefore acquires them in one global order, which removes
//! the circular wait a deadlock would need; `lock_order` states and proves
//! that argument on a model of the two-lock system.

use std::sync::Arc;
use vstd::prelude::*;
use vstd::rwlock::{RwLock, RwLockPredicate};

verus! {

/// The lock predicate for a plain guarded cell: any value may be stored.
pub struct AnyValue;

impl<V> RwLockPredicate<V> for AnyValue {
    open spec fn inv(self, v: V) -> bool {
        true
    }
}

/// Error reserved for acquisition after a holder died mid-section. This
/// implementation recovers instead (see the module notes), so the variant is
/// never produced here.
#[derive(Clone, Copy, Debug, PartialEq, Eq, Structural)]
pub struct PoisonedLock;

/// One value behind a mutual-exclusion guard. Clones are handles on the
/// same cell.
pub struct Guarded<V> {
    inner: Arc<RwLock<V, AnyValue>>,
}

impl<V> Clone for Guarded<V> {
    /// Another handle on the same cell.
    fn clone(&self) -> (r: Self) {
        Guarded { inner: self.inner.clone() }
    }
}

impl<V> Guarded<V> {
    /// A fresh cell holding `value`.
    pub fn new(value: V) -> (g: Guarded<V>)
    {
        Guarded { inner: Arc::new(RwLock::new(value, Ghost(AnyValue))) }
    }

    /// Scoped exclusive access: runs `f` on the guarded value, stores the
    /// value `f` hands back, and releases the guard on the way out. The
    /// closure must accept whatever value the cell currently holds. Always
    /// succeeds (see the module notes on poisoning), and the result is one
    /// `f` could have produced from some stored value.
    pub fn with_lock<R, F: FnOnce(V) -> (V, R)>(&self, f: F) -> (r: Result<R, PoisonedLock>)
        requires
            forall|v: V| call_requires(f, (v,)),
        ensures
            r is Ok,
            (exists|v: V, out: (V, R)| call_ensures(f, (v,), out) && out.1 == r.unwrap()),
    {
        let (v, handle) = self.inner.acquire_write();
        let (v2, out) = f(v);
        handle.release_write(v2);
        Ok(out)
    }
}

/// Scoped access to two guarded cells at once, under the fixed global
/// acquisition order: `first` is locked strictly before `second`, and both
/// are released on the way out. This is the only entry point that holds two
/// guards, so a caller cannot invert the order by accident; callers must
/// pass each pair of cells in one agreed role order for the global order to
/// be total. The closure sees both values exclusively and hands back their
/// replacements.
pub fn acquire_both<A, B, R, F: FnOnce(A, B) -> (A, B, R)>(
    first: &Guarded<A>,
    second: &Guarded<B>,
    f: F,
) -> (r: R)
    requires
        forall|a: A, b: B| call_requires(f, (a, b)),
    ensures
        (exists|a: A, b: B, out: (A, B, R)| call_ensures(f, (a, b), out) && out.2 == r),
{
    let (a, guard_a) = first.inner.acquire_write();
    let (b, guard_b) = second.inner.acquire_write();
    let (a2, b2, out) = f(a, b);
    guard_b.release_write(b2);
    guard_a.release_write(a2);
    out
}

} // verus!
