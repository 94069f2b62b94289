use std::sync::atomic::{AtomicUsize, Ordering};
use std::sync::{Arc, Mutex};

use worker_pool::pool::{Action, Phase};
use worker_pool::ThreadPool;

fn recorder(log: &Arc<Mutex<Vec<char>>>, name: char) -> impl FnOnce() + Send + 'static {
    let log = Arc::clone(log);
    move || log.lock().unwrap().push(name)
}

#[test]
fn new_pool_has_one_idle_worker_per_unit_of_size() {
    for size in [1usize, 2, 4, 17] {
        let pool = ThreadPool::new(size);
        assert_eq!(pool.size(), size);
        assert!(pool.is_open());
        assert_eq!(pool.pending(), 0);
        assert!(!pool.is_joined());
        for w in 0..size {
            assert_eq!(pool.phase(w), Some(Phase::Idle));
        }
        assert_eq!(pool.phase(size), None);
    }
}

#[test]
fn execute_enqueues_without_running() {
    let counter = Arc::new(AtomicUsize::new(0));
    let mut pool = ThreadPool::new(2);
    for _ in 0..3 {
        let c = Arc::clone(&counter);
        pool.execute(move || {
            c.fetch_add(1, Ordering::SeqCst);
        });
    }
    assert_eq!(pool.pending(), 3);
    assert_eq!(counter.load(Ordering::SeqCst), 0);
    assert_eq!(pool.phase(0), Some(Phase::Idle));
    assert_eq!(pool.phase(1), Some(Phase::Idle));
}

#[test]
fn receive_on_empty_open_queue_says_wait() {
    let mut pool = ThreadPool::new(2);
    assert!(matches!(pool.receive(1), Action::Wait));
    assert_eq!(pool.phase(1), Some(Phase::Idle));
    assert!(pool.is_open());
}

#[test]
fn receive_hands_out_oldest_item_and_marks_worker_running() {
    let log = Arc::new(Mutex::new(Vec::new()));
    let mut pool = ThreadPool::new(2);
    pool.execute(recorder(&log, 'A'));
    pool.execute(recorder(&log, 'B'));

    let first = pool.receive(1);
    assert_eq!(pool.phase(1), Some(Phase::Running));
    assert_eq!(pool.phase(0), Some(Phase::Idle));
    assert_eq!(pool.pending(), 1);
    let second = pool.receive(0);
    assert_eq!(pool.phase(0), Some(Phase::Running));
    assert_eq!(pool.pending(), 0);

    // The worker that received second happens to run first.
    match second {
        Action::Run(task) => task.run(),
        _ => panic!("the second worker was handed no item"),
    }
    pool.finish(0);
    assert_eq!(pool.phase(0), Some(Phase::Idle));
    assert_eq!(*log.lock().unwrap(), vec!['B']);
    match first {
        Action::Run(task) => task.run(),
        _ => panic!("the first worker was handed no item"),
    }
    pool.finish(1);
    assert_eq!(pool.phase(1), Some(Phase::Idle));
    assert_eq!(*log.lock().unwrap(), vec!['B', 'A']);
}

#[test]
fn single_worker_runs_items_in_submission_order() {
    let log = Arc::new(Mutex::new(Vec::new()));
    let mut pool = ThreadPool::new(1);
    pool.execute(recorder(&log, 'A'));
    pool.execute(recorder(&log, 'B'));
    pool.execute(recorder(&log, 'C'));
    assert!(matches!(pool.drain(0), Action::Wait));
    assert_eq!(*log.lock().unwrap(), vec!['A', 'B', 'C']);
    assert_eq!(pool.pending(), 0);
    assert_eq!(pool.phase(0), Some(Phase::Idle));
}

#[test]
fn single_worker_step_by_step_is_fifo() {
    let log = Arc::new(Mutex::new(Vec::new()));
    let mut pool = ThreadPool::new(1);
    pool.execute(recorder(&log, 'A'));
    pool.execute(recorder(&log, 'B'));
    pool.execute(recorder(&log, 'C'));
    let mut seen = Vec::new();
    loop {
        match pool.receive(0) {
            Action::Run(task) => {
                task.run();
                pool.finish(0);
                seen.push(log.lock().unwrap().clone());
            }
            Action::Wait => break,
            Action::Stop => panic!("an open pool told its worker to stop"),
        }
    }
    assert_eq!(seen, vec![vec!['A'], vec!['A', 'B'], vec!['A', 'B', 'C']]);
}

#[test]
fn shutdown_of_an_unused_pool_completes() {
    let mut pool = ThreadPool::new(3);
    let order = pool.shutdown();
    assert_eq!(order, vec![0, 1, 2]);
    assert!(!pool.is_open());
    assert!(!pool.is_joined());
    for w in order {
        assert!(matches!(pool.receive(w), Action::Stop));
        assert_eq!(pool.phase(w), Some(Phase::Terminated));
    }
    assert!(pool.is_joined());
}

#[test]
fn shutdown_still_delivers_what_was_enqueued() {
    let counter = Arc::new(AtomicUsize::new(0));
    let mut pool = ThreadPool::new(2);
    for _ in 0..5 {
        let c = Arc::clone(&counter);
        pool.execute(move || {
            c.fetch_add(1, Ordering::SeqCst);
        });
    }
    // One item is in flight when the pool is shut down.
    let in_flight = pool.receive(1);
    let order = pool.shutdown();
    assert_eq!(order, vec![0, 1]);
    assert_eq!(pool.pending(), 4);

    assert!(matches!(pool.drain(0), Action::Stop));
    assert_eq!(counter.load(Ordering::SeqCst), 4);
    assert_eq!(pool.phase(0), Some(Phase::Terminated));
    // Worker 1 is still running its item: the pool is not joined.
    assert!(!pool.is_joined());
    assert_eq!(pool.phase(1), Some(Phase::Running));

    match in_flight {
        Action::Run(task) => task.run(),
        _ => panic!("the worker was handed no item"),
    }
    pool.finish(1);
    assert!(matches!(pool.receive(1), Action::Stop));
    assert!(pool.is_joined());
    assert_eq!(counter.load(Ordering::SeqCst), 5);
}

#[test]
fn closing_twice_changes_nothing() {
    let mut pool = ThreadPool::new(2);
    pool.execute(|| {});
    pool.close();
    pool.close();
    assert!(!pool.is_open());
    assert_eq!(pool.pending(), 1);
    assert_eq!(pool.shutdown(), vec![0, 1]);
    assert_eq!(pool.pending(), 1);
    assert!(matches!(pool.drain(0), Action::Stop));
    assert!(matches!(pool.drain(1), Action::Stop));
    assert!(pool.is_joined());
}

#[test]
fn thousand_increments_on_four_workers_lose_nothing() {
    let counter = Arc::new(AtomicUsize::new(0));
    let runs = Arc::new(Mutex::new(vec![0usize; 4]));
    let mut pool = ThreadPool::new(4);
    for _ in 0..1000 {
        let c = Arc::clone(&counter);
        pool.execute(move || {
            c.fetch_add(1, Ordering::SeqCst);
        });
    }
    assert_eq!(pool.pending(), 1000);
    // All four workers receive before any of them finishes, round after round.
    loop {
        let mut handed = Vec::new();
        for w in 0..4 {
            if let Action::Run(task) = pool.receive(w) {
                handed.push((w, task));
            }
        }
        if handed.is_empty() {
            break;
        }
        for (w, task) in handed.into_iter().rev() {
            assert_eq!(pool.phase(w), Some(Phase::Running));
            task.run();
            pool.finish(w);
            runs.lock().unwrap()[w] += 1;
        }
    }
    assert_eq!(counter.load(Ordering::SeqCst), 1000);
    assert_eq!(*runs.lock().unwrap(), vec![250, 250, 250, 250]);
    for w in pool.shutdown() {
        assert!(matches!(pool.drain(w), Action::Stop));
    }
    assert!(pool.is_joined());
}

#[test]
fn drain_runs_only_what_is_waiting() {
    let log = Arc::new(Mutex::new(Vec::new()));
    let mut pool = ThreadPool::new(2);
    pool.execute(recorder(&log, 'A'));
    pool.execute(recorder(&log, 'B'));
    pool.execute(recorder(&log, 'C'));
    let held = pool.receive(0);
    assert!(matches!(pool.drain(1), Action::Wait));
    assert_eq!(*log.lock().unwrap(), vec!['B', 'C']);
    assert_eq!(pool.phase(0), Some(Phase::Running));
    assert_eq!(pool.phase(1), Some(Phase::Idle));
    if let Action::Run(task) = held {
        task.run();
    }
    pool.finish(0);
    assert_eq!(*log.lock().unwrap(), vec!['B', 'C', 'A']);
    assert!(matches!(pool.drain(0), Action::Wait));
    assert_eq!(*log.lock().unwrap(), vec!['B', 'C', 'A']);
}

#[test]
fn two_workers_finish_four_items_in_two_rounds() {
    let seen = Arc::new(Mutex::new(Vec::new()));
    let mut pool = ThreadPool::new(2);
    for index in 0..4usize {
        let seen = Arc::clone(&seen);
        pool.execute(move || seen.lock().unwrap().push(index));
    }
    // In each round every idle worker receives, then every running worker
    // runs its item to the end: one round stands for one item's duration.
    let mut rounds = 0;
    let mut spans: Vec<(usize, usize, usize)> = Vec::new();
    loop {
        let mut handed = Vec::new();
        for w in 0..2 {
            if let Action::Run(task) = pool.receive(w) {
                handed.push((w, task));
            }
        }
        if handed.is_empty() {
            break;
        }
        assert_eq!(handed.len(), 2);
        for (w, task) in handed {
            task.run();
            pool.finish(w);
            spans.push((w, rounds, rounds + 1));
        }
        rounds += 1;
    }
    assert_eq!(rounds, 2);
    assert_eq!(*seen.lock().unwrap(), vec![0, 1, 2, 3]);
    // No worker has two items in one round.
    for (i, a) in spans.iter().enumerate() {
        for b in spans.iter().skip(i + 1) {
            if a.0 == b.0 {
                assert!(a.2 <= b.1 || b.2 <= a.1);
            }
        }
    }
    assert_eq!(spans, vec![(0, 0, 1), (1, 0, 1), (0, 1, 2), (1, 1, 2)]);
}

#[test]
fn every_item_runs_exactly_once_whichever_worker_takes_it() {
    let counts = Arc::new(Mutex::new(vec![0usize; 7]));
    let mut pool = ThreadPool::new(3);
    for index in 0..7usize {
        let counts = Arc::clone(&counts);
        pool.execute(move || counts.lock().unwrap()[index] += 1);
    }
    // Worker 2 takes one item and holds it; worker 0 takes two; worker 1
    // drains the rest.
    let held = pool.receive(2);
    for _ in 0..2 {
        match pool.receive(0) {
            Action::Run(task) => task.run(),
            _ => panic!("the queue held items and handed none out"),
        }
        pool.finish(0);
    }
    assert!(matches!(pool.drain(1), Action::Wait));
    assert_eq!(*counts.lock().unwrap(), vec![0, 1, 1, 1, 1, 1, 1]);
    match held {
        Action::Run(task) => task.run(),
        _ => panic!("the queue held items and handed none out"),
    }
    pool.finish(2);
    assert_eq!(*counts.lock().unwrap(), vec![1; 7]);
    for w in pool.shutdown() {
        assert!(matches!(pool.drain(w), Action::Stop));
    }
    assert!(pool.is_joined());
    assert_eq!(*counts.lock().unwrap(), vec![1; 7]);
}
