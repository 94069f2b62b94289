use std::sync::atomic::{AtomicUsize, Ordering};
use std::sync::{Arc, Mutex};

use worker_pool::queue::{Received, WorkQueue};
use worker_pool::task::Task;

fn marker(log: &Arc<Mutex<Vec<u32>>>, n: u32) -> Task {
    let log = Arc::clone(log);
    Task::new(move || log.lock().unwrap().push(n))
}

#[test]
fn task_runs_its_callable_once() {
    let counter = Arc::new(AtomicUsize::new(0));
    let c = Arc::clone(&counter);
    let task = Task::new(move || {
        c.fetch_add(1, Ordering::SeqCst);
    });
    assert_eq!(counter.load(Ordering::SeqCst), 0);
    task.run();
    assert_eq!(counter.load(Ordering::SeqCst), 1);
    // The callable was consumed: the pool holds no other reference to it.
    assert_eq!(Arc::strong_count(&counter), 1);
}

#[test]
fn new_queue_is_open_and_empty() {
    let mut queue = WorkQueue::new(3);
    assert!(queue.is_open());
    assert_eq!(queue.receiver_count(), 3);
    assert_eq!(queue.len(), 0);
    assert!(matches!(queue.receive(), Received::Empty));
    assert!(queue.is_open());
}

#[test]
fn queue_delivers_in_order_of_sending() {
    let log = Arc::new(Mutex::new(Vec::new()));
    let mut queue = WorkQueue::new(2);
    for n in [7, 3, 9] {
        assert!(queue.send(marker(&log, n)).is_ok());
    }
    assert_eq!(queue.len(), 3);
    for expected in [vec![7], vec![7, 3], vec![7, 3, 9]] {
        match queue.receive() {
            Received::Item(task) => task.run(),
            _ => panic!("the queue held an item and handed none out"),
        }
        assert_eq!(*log.lock().unwrap(), expected);
    }
    assert_eq!(queue.len(), 0);
    assert!(matches!(queue.receive(), Received::Empty));
}

#[test]
fn closed_queue_delivers_its_backlog_then_reports_closed() {
    let log = Arc::new(Mutex::new(Vec::new()));
    let mut queue = WorkQueue::new(2);
    assert!(queue.send(marker(&log, 1)).is_ok());
    assert!(queue.send(marker(&log, 2)).is_ok());
    queue.close();
    assert!(!queue.is_open());
    assert_eq!(queue.len(), 2);
    for _ in 0..2 {
        match queue.receive() {
            Received::Item(task) => task.run(),
            _ => panic!("the backlog was dropped"),
        }
    }
    assert_eq!(*log.lock().unwrap(), vec![1, 2]);
    assert!(matches!(queue.receive(), Received::Closed));
    assert!(matches!(queue.receive(), Received::Closed));
}

#[test]
fn send_on_closed_queue_hands_the_item_back() {
    let log = Arc::new(Mutex::new(Vec::new()));
    let mut queue = WorkQueue::new(2);
    queue.close();
    match queue.send(marker(&log, 5)) {
        Ok(()) => panic!("a closed queue accepted an item"),
        Err(task) => {
            assert_eq!(queue.len(), 0);
            assert!(log.lock().unwrap().is_empty());
            task.run();
        }
    }
    assert_eq!(*log.lock().unwrap(), vec![5]);
    assert!(matches!(queue.receive(), Received::Closed));
}

#[test]
fn send_without_any_receiver_hands_the_item_back() {
    let log = Arc::new(Mutex::new(Vec::new()));
    let mut queue = WorkQueue::new(2);
    assert!(queue.send(marker(&log, 1)).is_ok());
    queue.disconnect();
    assert_eq!(queue.receiver_count(), 1);
    assert!(queue.send(marker(&log, 2)).is_ok());
    queue.disconnect();
    assert_eq!(queue.receiver_count(), 0);
    assert!(queue.is_open());
    match queue.send(marker(&log, 3)) {
        Ok(()) => panic!("a queue without receivers accepted an item"),
        Err(task) => task.run(),
    }
    assert_eq!(*log.lock().unwrap(), vec![3]);
    assert_eq!(queue.len(), 2);
    queue.disconnect();
    assert_eq!(queue.receiver_count(), 0);
}

#[test]
fn queue_made_without_receivers_is_disconnected() {
    let mut queue = WorkQueue::new(0);
    assert!(queue.is_open());
    assert!(queue.send(Task::new(|| {})).is_err());
    assert_eq!(queue.len(), 0);
}
