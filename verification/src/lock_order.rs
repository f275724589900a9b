//! Why ordered dual acquisition cannot deadlock.
//!
//! `acquire_both` takes the first cell's guard strictly before the
//! second's, for every thread alike. This module states that argument as a
//! model and proves it: the system of any number of threads, each wanting
//! both resources in the fixed order, can always make progress — no
//! reachable state is a deadlock. A deadlock needs a circular wait; with a
//! total acquisition order a thread only ever waits for the second
//! resource while holding the first, and whoever holds the second resource
//! holds both and can finish, so the cycle never closes.
//!
//! A thread is modelled by how far through `acquire_both` it is: not yet
//! started, holding the first resource, holding both, or done. The two
//! resources hold the identity of their current holder, if any.

use vstd::prelude::*;

verus! {

/// How far one thread is through its ordered dual acquisition.
pub enum Phase {
    /// Wants both resources, holds neither.
    Start,
    /// Acquired the first resource, waiting on the second.
    HoldsFirst,
    /// Acquired both resources, inside the critical section.
    HoldsBoth,
    /// Released both resources and finished.
    Done,
}

/// The whole system: one phase per thread and the two resources' holders,
/// each a thread index or free.
pub struct LockOrderState {
    pub phases: Seq<Phase>,
    pub first: Option<int>,
    pub second: Option<int>,
}

impl LockOrderState {
    /// Consistency between the phases and the holder fields: a resource's
    /// holder is a real thread whose phase says so, and a thread whose
    /// phase says it holds a resource is that resource's registered
    /// holder — so each resource has at most one holder.
    pub open spec fn wf(self) -> bool {
        &&& (self.first matches Some(t) ==> 0 <= t < self.phases.len() && (self.phases[t]
            is HoldsFirst || self.phases[t] is HoldsBoth))
        &&& (self.second matches Some(t) ==> 0 <= t < self.phases.len() && self.phases[t]
            is HoldsBoth)
        &&& (forall|t: int|
            0 <= t < self.phases.len() && (#[trigger] self.phases[t] is HoldsFirst
                || self.phases[t] is HoldsBoth) ==> self.first == Some(t))
        &&& (forall|t: int|
            0 <= t < self.phases.len() && #[trigger] self.phases[t] is HoldsBoth
                ==> self.second == Some(t))
    }

    /// Whether thread `t` can take its next step right now.
    pub open spec fn enabled(self, t: int) -> bool {
        &&& 0 <= t < self.phases.len()
        &&& match self.phases[t] {
            Phase::Start => self.first is None,
            Phase::HoldsFirst => self.second is None,
            Phase::HoldsBoth => true,
            Phase::Done => false,
        }
    }

    /// Thread `t`'s next step: acquire the first resource, then the
    /// second, then release both and finish.
    pub open spec fn step(self, t: int) -> LockOrderState
        recommends
            self.enabled(t),
    {
        match self.phases[t] {
            Phase::Start => LockOrderState {
                phases: self.phases.update(t, Phase::HoldsFirst),
                first: Some(t),
                second: self.second,
            },
            Phase::HoldsFirst => LockOrderState {
                phases: self.phases.update(t, Phase::HoldsBoth),
                first: self.first,
                second: Some(t),
            },
            Phase::HoldsBoth => LockOrderState {
                phases: self.phases.update(t, Phase::Done),
                first: None,
                second: None,
            },
            Phase::Done => self,
        }
    }

    /// Whether every thread has finished.
    pub open spec fn all_done(self) -> bool {
        forall|t: int| 0 <= t < self.phases.len() ==> #[trigger] self.phases[t] is Done
    }
}

/// Every step a thread can actually take leads from a consistent state to
/// a consistent state, so every state the system can reach from a
/// consistent start is consistent.
pub proof fn lemma_step_preserves_wf(s: LockOrderState, t: int)
    requires
        s.wf(),
        s.enabled(t),
    ensures
        s.step(t).wf(),
{
    let s2 = s.step(t);
    assert forall|u: int|
        0 <= u < s2.phases.len() && (#[trigger] s2.phases[u] is HoldsFirst || s2.phases[u]
            is HoldsBoth) implies s2.first == Some(u) by {
        if u != t {
            assert(s.phases[u] == s2.phases[u]);
        }
    }
    assert forall|u: int|
        0 <= u < s2.phases.len() && #[trigger] s2.phases[u] is HoldsBoth implies s2.second == Some(
        u,
    ) by {
        if u != t {
            assert(s.phases[u] == s2.phases[u]);
        }
    }
}

/// Deadlock freedom of the fixed acquisition order: in every consistent
/// state where some thread still wants to run, some thread can take a
/// step. The system of M ordered acquirers can therefore never wedge; it
/// runs until all M are done.
pub proof fn lemma_no_deadlock(s: LockOrderState)
    requires
        s.wf(),
        !s.all_done(),
    ensures
        exists|t: int| s.enabled(t),
{
    match s.second {
        Some(t) => {
            assert(s.enabled(t));
        },
        None => {
            match s.first {
                Some(t) => {
                    assert(s.enabled(t));
                },
                None => {
                    let t = choose|t: int|
                        0 <= t < s.phases.len() && !(#[trigger] s.phases[t] is Done);
                    assert(!(s.phases[t] is HoldsFirst) && !(s.phases[t] is HoldsBoth));
                    assert(s.enabled(t));
                },
            }
        },
    }
}

} // verus!
