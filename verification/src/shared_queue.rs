//! Many-threaded access to one `Queue`.
//!
//! A `SharedQueue` is a cloneable handle on a queue behind a verified
//! exclusive lock (`vstd`'s `RwLock`, used write-only as a mutex). The lock's
//! predicate is the queue's conservation invariant, so every state any
//! thread ever observes or stores is well-formed: whatever interleaving the
//! scheduler picks, no job is lost, duplicated or reordered, and sends
//! interleave in lock order (first-in, first-out per producer).
//!
//! A per-call postcondition cannot pin the state of a shared queue — between
//! two calls any other thread may send, receive or close — so the exact
//! contracts live on the sequential `Queue` operations that every call here
//! performs under the lock.

use crate::queue::{Outcome, Queue, QueueClosed};
use std::sync::Arc;
use vstd::prelude::*;
use vstd::rwlock::{RwLock, RwLockPredicate};

verus! {

/// The lock predicate: only well-formed queue states may be stored.
pub struct QueueInv;

impl<T> RwLockPredicate<Queue<T>> for QueueInv {
    open spec fn inv(self, q: Queue<T>) -> bool {
        q.wf()
    }
}

/// What polling a shared queue yields: a job, word that the queue is closed
/// and drained, or nothing for now while the queue is still open.
#[derive(Debug)]
pub enum Poll<T> {
    Item(T),
    Closed,
    Pending,
}

/// A cloneable handle on one shared queue. All clones reach the same queue;
/// the longest-living clone keeps it alive.
pub struct SharedQueue<T> {
    inner: Arc<RwLock<Queue<T>, QueueInv>>,
}

impl<T> Clone for SharedQueue<T> {
    /// Another handle on the same queue.
    fn clone(&self) -> (r: Self) {
        SharedQueue { inner: self.inner.clone() }
    }
}

impl<T> SharedQueue<T> {
    /// A fresh, open, empty shared queue.
    pub fn new() -> (q: SharedQueue<T>)
    {
        let core = Queue::new();
        SharedQueue { inner: Arc::new(RwLock::new(core, Ghost(QueueInv))) }
    }

    /// Hands one job to the queue without waiting for a consumer. Refused
    /// with `QueueClosed` exactly when some thread closed the queue first.
    pub fn send(&self, item: T) -> (r: Result<(), QueueClosed>)
    {
        let (mut q, handle) = self.inner.acquire_write();
        let r = q.send(item);
        handle.release_write(q);
        r
    }

    /// Marks the queue closed: no later send succeeds, and once the backlog
    /// is drained every poll reports `Closed`.
    pub fn close(&self)
    {
        let (mut q, handle) = self.inner.acquire_write();
        q.close();
        handle.release_write(q);
    }

    /// One delivery attempt: the oldest pending job if there is one,
    /// `Closed` once the queue is closed and drained, and `Pending` while an
    /// open queue is momentarily empty — another thread may still send.
    pub fn try_receive(&self) -> (r: Poll<T>)
    {
        let (mut q, handle) = self.inner.acquire_write();
        let r = if q.backlog_len() > 0 {
            match q.receive() {
                Outcome::Item(item) => Poll::Item(item),
                Outcome::Closed => Poll::Closed,
            }
        } else if q.is_closed_now() {
            match q.receive() {
                Outcome::Item(item) => Poll::Item(item),
                Outcome::Closed => Poll::Closed,
            }
        } else {
            Poll::Pending
        };
        handle.release_write(q);
        r
    }
}

} // verus!
