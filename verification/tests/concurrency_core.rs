use workpool::counter::AtomicCounter;
use workpool::guarded::{acquire_both, Guarded};
use workpool::pool::{run_pool, run_worker, summarize, WorkerExit, WorkerRun};
use workpool::queue::{Outcome, Queue, QueueClosed};
use workpool::shared_queue::{Poll, SharedQueue};

#[test]
fn n_sends_give_n_items_before_closed() {
    let mut q: Queue<u64> = Queue::new();
    for i in 0..5u64 {
        assert!(q.send(i).is_ok());
    }
    q.close();
    let mut received: Vec<u64> = Vec::new();
    loop {
        match q.receive() {
            Outcome::Item(x) => received.push(x),
            Outcome::Closed => break,
        }
    }
    assert_eq!(received, vec![0, 1, 2, 3, 4]);
}

#[test]
fn send_after_close_is_refused() {
    let mut q: Queue<u64> = Queue::new();
    assert!(q.send(1).is_ok());
    q.close();
    assert_eq!(q.send(2), Err(QueueClosed));
    assert_eq!(q.backlog_len(), 1);
}

#[test]
fn receive_on_empty_closed_queue_returns_closed_immediately() {
    let mut q: Queue<u64> = Queue::new();
    q.close();
    assert!(matches!(q.receive(), Outcome::Closed));
    assert!(matches!(q.receive(), Outcome::Closed));
}

#[test]
fn shared_queue_polls() {
    let q: SharedQueue<u64> = SharedQueue::new();
    assert!(matches!(q.try_receive(), Poll::Pending));
    assert!(q.send(7).is_ok());
    assert!(q.send(8).is_ok());
    match q.try_receive() {
        Poll::Item(x) => assert_eq!(x, 7),
        _ => panic!("expected the first item"),
    }
    q.close();
    assert!(q.send(9).is_err());
    match q.try_receive() {
        Poll::Item(x) => assert_eq!(x, 8),
        _ => panic!("expected the backlog to drain"),
    }
    assert!(matches!(q.try_receive(), Poll::Closed));
}

#[test]
fn shared_queue_clones_reach_one_queue() {
    let q: SharedQueue<u64> = SharedQueue::new();
    let sender = q.clone();
    assert!(sender.send(42).is_ok());
    q.close();
    match q.try_receive() {
        Poll::Item(x) => assert_eq!(x, 42),
        _ => panic!("the clone's send must be visible"),
    }
}

#[test]
fn multiset_of_received_equals_multiset_of_sent() {
    let q: SharedQueue<u64> = SharedQueue::new();
    let a = q.clone();
    let b = q.clone();
    let sent = vec![3u64, 1, 4, 1, 5, 9, 2, 6];
    for (k, item) in sent.iter().enumerate() {
        if k % 2 == 0 {
            assert!(a.send(*item).is_ok());
        } else {
            assert!(b.send(*item).is_ok());
        }
    }
    q.close();
    let mut received: Vec<u64> = Vec::new();
    loop {
        match q.try_receive() {
            Poll::Item(x) => received.push(x),
            Poll::Closed => break,
            Poll::Pending => panic!("a closed queue never pends"),
        }
    }
    let mut sent_sorted = sent.clone();
    sent_sorted.sort();
    received.sort();
    assert_eq!(received, sent_sorted);
}

#[test]
fn counter_totals_are_exact() {
    let counter = AtomicCounter::new(0);
    let threads = 4u64;
    let per_thread = 1000u64;
    for _ in 0..threads {
        for _ in 0..per_thread {
            counter.increment();
        }
    }
    assert_eq!(counter.load(), threads * per_thread);
}

#[test]
fn increment_returns_the_previous_value() {
    let counter = AtomicCounter::new(10);
    assert_eq!(counter.increment(), 10);
    assert_eq!(counter.increment(), 11);
    assert_eq!(counter.load(), 12);
}

#[test]
fn with_lock_runs_the_closure_and_stores_the_result() {
    let cell = Guarded::new(0u64);
    for _ in 0..10 {
        let r = cell.with_lock(|v: u64| (v + 1, ()));
        assert!(r.is_ok());
    }
    let seen = cell.with_lock(|v: u64| (v, v)).unwrap();
    assert_eq!(seen, 10);
}

#[test]
fn with_lock_sections_never_overlap() {
    // Each critical section draws an entry ticket and an exit ticket from
    // one counter. Sections that never overlap draw adjacent tickets.
    let cell = Guarded::new(());
    let tickets = AtomicCounter::new(0);
    let mut spans: Vec<(u64, u64)> = Vec::new();
    for _ in 0..8 {
        let span = cell
            .with_lock(|u: ()| {
                let entered = tickets.increment();
                let left = tickets.increment();
                (u, (entered, left))
            })
            .unwrap();
        spans.push(span);
    }
    for (entered, left) in spans {
        assert_eq!(left, entered + 1);
    }
}

#[test]
fn ordered_dual_acquisition_completes() {
    let money = Guarded::new(100i64);
    let items = Guarded::new(0i64);
    for _ in 0..50 {
        let moved = acquire_both(&money, &items, |m: i64, i: i64| (m - 2, i + 1, m - 2));
        assert!(moved <= 100);
    }
    let leftover = money.with_lock(|m: i64| (m, m)).unwrap();
    let bought = items.with_lock(|i: i64| (i, i)).unwrap();
    assert_eq!(leftover, 0);
    assert_eq!(bought, 50);
}

#[test]
fn pool_of_four_workers_runs_eight_jobs_exactly_once() {
    let q: SharedQueue<u64> = SharedQueue::new();
    for job in 0..8u64 {
        assert!(q.send(job).is_ok());
    }
    q.close();
    let log: Guarded<Vec<u64>> = Guarded::new(Vec::new());
    let body = |_worker: usize, job: u64| {
        let _ = log.with_lock(|mut seen: Vec<u64>| {
            seen.push(job);
            (seen, ())
        });
    };
    let report = run_pool(4, &q, &body);
    assert_eq!(report.workers, 4);
    assert!(report.all_clean());
    assert_eq!(report.died, 0);
    assert_eq!(report.jobs_done, 8);
    let mut seen = log.with_lock(|v: Vec<u64>| (v.clone(), v)).unwrap();
    seen.sort();
    assert_eq!(seen, vec![0, 1, 2, 3, 4, 5, 6, 7]);
}

#[test]
fn worker_terminates_cleanly_on_closed() {
    let q: SharedQueue<u64> = SharedQueue::new();
    assert!(q.send(1).is_ok());
    q.close();
    let body = |_worker: usize, _job: u64| {};
    let exit = run_worker(3, &q, &body);
    assert_eq!(exit.worker, 3);
    assert_eq!(exit.jobs_done, 1);
    assert!(exit.saw_closed);
}

#[test]
fn summarize_counts_clean_and_dead_workers() {
    let runs = vec![
        WorkerRun::Finished(WorkerExit { worker: 0, jobs_done: 3, saw_closed: true }),
        WorkerRun::Died,
        WorkerRun::Finished(WorkerExit { worker: 2, jobs_done: 5, saw_closed: true }),
        WorkerRun::Finished(WorkerExit { worker: 3, jobs_done: 0, saw_closed: false }),
    ];
    let report = summarize(&runs);
    assert_eq!(report.workers, 4);
    assert_eq!(report.clean, 2);
    assert_eq!(report.died, 1);
    assert_eq!(report.jobs_done, 8);
    assert!(!report.all_clean());
}
