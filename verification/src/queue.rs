//! The job queue: an ordered, unbounded conduit of jobs with a graceful
//! close. A `Queue` value is the state of one queue as a single owner sees
//! it; `SharedQueue` hands the same state to many threads.
//!
//! Two ghost logs ride along with the pending backlog: everything a producer
//! ever handed to `send`, and everything a consumer ever took out. The
//! well-formedness invariant ties the three together, and the public lemmas
//! below turn it into the delivery guarantees.

use vstd::prelude::*;
use vstd::seq_lib::lemma_multiset_commutative;

verus! {

/// Error returned by `send` once the queue is closed.
#[derive(Clone, Copy, Debug, PartialEq, Eq, Structural)]
pub struct QueueClosed;

/// What a receive yields: one job, or word that the queue is closed and
/// fully drained.
#[derive(Debug)]
pub enum Outcome<T> {
    Item(T),
    Closed,
}

/// An ordered queue of jobs. Jobs come out in the order they went in; after
/// `close`, sends are refused and receives drain what is left.
pub struct Queue<T> {
    items: Vec<T>,
    closed: bool,
    sent: Ghost<Seq<T>>,
    delivered: Ghost<Seq<T>>,
}

impl<T> Queue<T> {
    /// Every job ever accepted by `send`, in acceptance order.
    pub closed spec fn sent_log(self) -> Seq<T> {
        self.sent@
    }

    /// Every job ever handed out by `receive`, in delivery order.
    pub closed spec fn delivered_log(self) -> Seq<T> {
        self.delivered@
    }

    /// The backlog: accepted jobs not yet delivered, oldest first.
    pub closed spec fn pending(self) -> Seq<T> {
        self.items@
    }

    /// Whether `close` has been called.
    pub closed spec fn is_closed(self) -> bool {
        self.closed
    }

    /// The conservation invariant: the send log is exactly the delivered log
    /// followed by the backlog. Nothing is lost, duplicated or reordered.
    pub open spec fn wf(self) -> bool {
        self.sent_log() == self.delivered_log() + self.pending()
    }

    /// A fresh, open, empty queue.
    pub fn new() -> (q: Queue<T>)
        ensures
            q.wf(),
            !q.is_closed(),
            q.sent_log() == Seq::<T>::empty(),
            q.delivered_log() == Seq::<T>::empty(),
            q.pending() == Seq::<T>::empty(),
    {
        let q = Queue {
            items: Vec::new(),
            closed: false,
            sent: Ghost(Seq::empty()),
            delivered: Ghost(Seq::empty()),
        };
        proof {
            assert(q.sent_log() =~= q.delivered_log() + q.pending());
        }
        q
    }

    /// Hands one job to the queue. Succeeds exactly while the queue is open;
    /// after `close` the job is refused and the state does not change.
    pub fn send(&mut self, item: T) -> (r: Result<(), QueueClosed>)
        requires
            old(self).wf(),
        ensures
            final(self).wf(),
            final(self).is_closed() == old(self).is_closed(),
            final(self).delivered_log() == old(self).delivered_log(),
            old(self).is_closed() ==> {
                &&& r is Err
                &&& final(self).pending() == old(self).pending()
                &&& final(self).sent_log() == old(self).sent_log()
            },
            !old(self).is_closed() ==> {
                &&& r is Ok
                &&& final(self).pending() == old(self).pending().push(item)
                &&& final(self).sent_log() == old(self).sent_log().push(item)
            },
    {
        if self.closed {
            Err(QueueClosed)
        } else {
            self.items.push(item);
            proof {
                self.sent@ = self.sent@.push(item);
                assert(final(self).sent_log() =~= final(self).delivered_log()
                    + final(self).pending());
            }
            Ok(())
        }
    }

    /// Marks the queue closed. Later sends are refused; the backlog stays
    /// available to receivers.
    pub fn close(&mut self)
        requires
            old(self).wf(),
        ensures
            final(self).wf(),
            final(self).is_closed(),
            final(self).pending() == old(self).pending(),
            final(self).sent_log() == old(self).sent_log(),
            final(self).delivered_log() == old(self).delivered_log(),
    {
        self.closed = true;
    }

    /// Takes the oldest pending job, or reports `Closed` once the queue is
    /// closed and drained. A single owner can only wait for a job that will
    /// never come, so an empty open queue is left out by precondition; the
    /// blocking behaviour lives in `SharedQueue`, where another thread can
    /// still fill or close the queue.
    pub fn receive(&mut self) -> (r: Outcome<T>)
        requires
            old(self).wf(),
            old(self).is_closed() || old(self).pending().len() > 0,
        ensures
            final(self).wf(),
            final(self).is_closed() == old(self).is_closed(),
            final(self).sent_log() == old(self).sent_log(),
            old(self).pending().len() > 0 ==> {
                &&& r == Outcome::Item(old(self).pending()[0])
                &&& final(self).pending() == old(self).pending().drop_first()
                &&& final(self).delivered_log() == old(self).delivered_log().push(
                    old(self).pending()[0],
                )
            },
            old(self).pending().len() == 0 ==> {
                &&& r is Closed
                &&& final(self).pending() == old(self).pending()
                &&& final(self).delivered_log() == old(self).delivered_log()
            },
    {
        if self.items.len() > 0 {
            let item = self.items.remove(0);
            proof {
                self.delivered@ = self.delivered@.push(item);
                assert(final(self).pending() =~= old(self).pending().drop_first());
                assert(final(self).sent_log() =~= final(self).delivered_log()
                    + final(self).pending());
            }
            Outcome::Item(item)
        } else {
            Outcome::Closed
        }
    }

    /// Whether the queue has been closed.
    pub fn is_closed_now(&self) -> (b: bool)
        ensures
            b == self.is_closed(),
    {
        self.closed
    }

    /// How many jobs are pending right now.
    pub fn backlog_len(&self) -> (n: usize)
        ensures
            n == self.pending().len(),
    {
        self.items.len()
    }

    /// Delivery is exhaustive and unique: once the backlog is drained, the
    /// delivered log is the send log itself. N sends give exactly N
    /// deliveries, each item exactly once, in order, and only then can a
    /// receive report `Closed`.
    pub proof fn lemma_drained_delivers_exactly_the_sent(q: Queue<T>)
        requires
            q.wf(),
            q.pending().len() == 0,
        ensures
            q.delivered_log() == q.sent_log(),
            q.delivered_log().len() == q.sent_log().len(),
    {
        assert(q.delivered_log() =~= q.delivered_log() + q.pending());
    }

    /// Conservation as multisets: in every well-formed state, what was sent
    /// is what was delivered plus what is still pending — no loss and no
    /// duplication, independently of any ordering.
    pub proof fn lemma_no_loss_no_duplication(q: Queue<T>)
        requires
            q.wf(),
        ensures
            q.sent_log().to_multiset() == q.delivered_log().to_multiset().add(
                q.pending().to_multiset(),
            ),
    {
        lemma_multiset_commutative(q.delivered_log(), q.pending());
    }
}

} // verus!
