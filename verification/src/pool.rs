//! The worker pool: a fixed set of workers that drain one shared queue.
//!
//! Everything a pool decides is here and verified: one worker's whole
//! receive-process loop (`run_worker`), the join point's bookkeeping
//! (`summarize`), and a driver that runs a whole pool to completion on the
//! calling thread (`run_pool`). Starting OS threads is the one thing this
//! module cannot do itself; a host program spawns one thread per worker,
//! runs `run_worker` on each, and folds the collected exits with
//! `summarize` — every decision still runs through the verified code, under
//! any interleaving, because the shared queue's invariant is enforced by
//! its lock whatever the schedule.
//!
//! A worker repeatedly polls the queue: a job is executed by the caller's
//! body, `Pending` is tried again, and `Closed` — the queue closed and
//! drained — is the one clean way a worker terminates. Closing the queue is
//! the only supported way to stop a pool; workers never stop on an idle
//! timeout. A failure in a job body is not caught: it kills that one
//! worker, the documented fail-fast policy, and the join point reports it.
//!
//! The polling loop carries an explicit iteration budget so that Verus's
//! termination lint is satisfied; at `u64::MAX` polls the budget outlasts
//! any realistic run, and a worker that somehow exhausted it reports an
//! unclean exit rather than pretend it saw the queue closed.

use crate::shared_queue::{Poll, SharedQueue};
use vstd::prelude::*;

verus! {

/// A worker's identity: a number in `[0, worker_count)`.
pub type WorkerId = usize;

/// What one worker hands back when it stops.
pub struct WorkerExit {
    /// The worker's identity within its pool.
    pub worker: WorkerId,
    /// How many jobs this worker executed (saturating).
    pub jobs_done: u64,
    /// True when the worker stopped because it observed the queue closed
    /// and drained; false when it gave up its poll budget.
    pub saw_closed: bool,
}

/// How one worker's thread ended, as its join point sees it.
pub enum WorkerRun {
    /// The worker returned its exit report.
    Finished(WorkerExit),
    /// The thread died before reporting — a job body failed.
    Died,
}

/// The join point's account of a shutdown.
pub struct PoolReport {
    /// How many workers the pool ran.
    pub workers: usize,
    /// How many terminated cleanly, having observed the queue closed.
    pub clean: usize,
    /// How many died in a job body.
    pub died: usize,
    /// Jobs executed across all workers that reported back (saturating).
    pub jobs_done: u64,
}

/// How many of the runs are clean exits: the worker finished and it saw
/// the queue closed.
pub open spec fn count_clean(runs: Seq<WorkerRun>) -> nat
    decreases runs.len(),
{
    if runs.len() == 0 {
        0
    } else {
        count_clean(runs.drop_last()) + (match runs.last() {
            WorkerRun::Finished(exit) => if exit.saw_closed {
                1nat
            } else {
                0nat
            },
            WorkerRun::Died => 0nat,
        })
    }
}

/// How many of the runs are threads that died in a job body.
pub open spec fn count_died(runs: Seq<WorkerRun>) -> nat
    decreases runs.len(),
{
    if runs.len() == 0 {
        0
    } else {
        count_died(runs.drop_last()) + (match runs.last() {
            WorkerRun::Finished(_) => 0nat,
            WorkerRun::Died => 1nat,
        })
    }
}

/// The jobs the reporting workers executed, added up without bound.
pub open spec fn total_jobs(runs: Seq<WorkerRun>) -> int
    decreases runs.len(),
{
    if runs.len() == 0 {
        0
    } else {
        total_jobs(runs.drop_last()) + (match runs.last() {
            WorkerRun::Finished(exit) => exit.jobs_done as int,
            WorkerRun::Died => 0,
        })
    }
}

impl PoolReport {
    /// A shutdown is complete only when every worker reached its terminal
    /// state cleanly.
    pub open spec fn spec_all_clean(self) -> bool {
        self.clean == self.workers
    }

    /// Whether every worker terminated cleanly.
    pub fn all_clean(&self) -> (b: bool)
        ensures
            b == self.spec_all_clean(),
    {
        self.clean == self.workers
    }
}

/// One worker's receive-process loop: poll the queue, run the job, repeat,
/// stop cleanly on `Closed`. The body must accept any worker identity and
/// any job.
pub fn run_worker<T, F: Fn(WorkerId, T)>(worker: WorkerId, queue: &SharedQueue<T>, body: &F) -> (
    exit: WorkerExit)
    requires
        forall|i: WorkerId, t: T| call_requires(*body, (i, t)),
    ensures
        exit.worker == worker,
{
    let mut jobs_done: u64 = 0;
    let mut budget: u64 = u64::MAX;
    loop
        invariant
            forall|i: WorkerId, t: T| call_requires(*body, (i, t)),
        decreases budget,
    {
        match queue.try_receive() {
            Poll::Item(job) => {
                (*body)(worker, job);
                if jobs_done < u64::MAX {
                    jobs_done = jobs_done + 1;
                }
            },
            Poll::Closed => {
                return WorkerExit { worker, jobs_done, saw_closed: true };
            },
            Poll::Pending => {},
        }
        if budget == 0 {
            return WorkerExit { worker, jobs_done, saw_closed: false };
        }
        budget = budget - 1;
    }
}

/// Folds the collected worker runs into the shutdown report: how many
/// workers there were, how many terminated cleanly, how many died, and the
/// jobs done (saturating at `u64::MAX`).
pub fn summarize(runs: &Vec<WorkerRun>) -> (report: PoolReport)
    ensures
        report.workers == runs@.len(),
        report.clean == count_clean(runs@),
        report.died == count_died(runs@),
        report.jobs_done == if total_jobs(runs@) <= u64::MAX as int {
            total_jobs(runs@)
        } else {
            u64::MAX as int
        },
{
    let mut clean: usize = 0;
    let mut died: usize = 0;
    let mut jobs_done: u64 = 0;
    let mut i: usize = 0;
    while i < runs.len()
        invariant
            i <= runs@.len(),
            clean == count_clean(runs@.take(i as int)),
            died == count_died(runs@.take(i as int)),
            clean + died <= i,
            jobs_done == if total_jobs(runs@.take(i as int)) <= u64::MAX as int {
                total_jobs(runs@.take(i as int))
            } else {
                u64::MAX as int
            },
        decreases runs@.len() - i,
    {
        proof {
            assert(runs@.take(i + 1).drop_last() =~= runs@.take(i as int));
            assert(runs@.take(i + 1).last() == runs@[i as int]);
        }
        match &runs[i] {
            WorkerRun::Finished(exit) => {
                if exit.saw_closed {
                    clean = clean + 1;
                }
                if jobs_done <= u64::MAX - exit.jobs_done {
                    jobs_done = jobs_done + exit.jobs_done;
                } else {
                    jobs_done = u64::MAX;
                }
            },
            WorkerRun::Died => {
                died = died + 1;
            },
        }
        i = i + 1;
    }
    proof {
        assert(runs@.take(runs@.len() as int) =~= runs@);
    }
    PoolReport { workers: runs.len(), clean, died, jobs_done }
}

/// Runs a whole pool to completion on the calling thread: workers numbered
/// from zero each run their loop in turn, and the exits are folded into the
/// report. The schedule is one of the pool's admissible interleavings — a
/// host that wants a parallel one spawns a thread per `run_worker` call
/// instead. Have the queue closed (or guaranteed to be closed by another
/// thread) before calling, or workers will spin their poll budget out.
pub fn run_pool<T, F: Fn(WorkerId, T)>(worker_count: usize, queue: &SharedQueue<T>, body: &F) -> (
    report: PoolReport)
    requires
        forall|i: WorkerId, t: T| call_requires(*body, (i, t)),
    ensures
        report.workers == worker_count,
        report.died == 0,
{
    let mut runs: Vec<WorkerRun> = Vec::new();
    let mut id: usize = 0;
    while id < worker_count
        invariant
            id <= worker_count,
            runs@.len() == id,
            count_died(runs@) == 0,
            forall|i: WorkerId, t: T| call_requires(*body, (i, t)),
        decreases worker_count - id,
    {
        let exit = run_worker(id, queue, body);
        proof {
            assert(runs@.push(WorkerRun::Finished(exit)).drop_last() =~= runs@);
        }
        runs.push(WorkerRun::Finished(exit));
        id = id + 1;
    }
    summarize(&runs)
}

} // verus!
