//! What holds of every pool, proved from the transition system.

use vstd::prelude::*;
use crate::model::{lemma_count_live_bounds, serving, Event, ItemState, PoolState};
use crate::pool::Action;

verus! {

/// A pool constructed with a positive size has exactly that many workers,
/// all of them idle, before anything is submitted.
pub proof fn law_new_pool_has_every_worker(size: nat)
    requires
        size > 0,
    ensures
        PoolState::init(size).inv(),
        PoolState::init(size).open,
        PoolState::init(size).workers.len() == size,
        forall|w: int| 0 <= w < size ==> PoolState::init(size).workers[w] is Idle,
        PoolState::init(size).items.len() == 0,
        PoolState::init(size).pending().len() == 0,
{
}

/// No event that may happen breaks the pool's invariant.
pub proof fn law_step_keeps_invariant(s: PoolState, event: Event)
    requires
        s.inv(),
        s.enabled(event),
    ensures
        s.step(event).inv(),
{
    let n = s.step(event);
    match event {
        Event::Submit(task) => {
            assert forall|t: int| 0 <= t < n.items.len() implies #[trigger] n.item_consistent(t) by {
                if t < s.items.len() {
                    assert(s.item_consistent(t));
                }
            }
            assert forall|w: int| 0 <= w < n.workers.len() implies #[trigger] n.worker_consistent(
                w,
            ) by {
                assert(s.worker_consistent(w));
            }
        },
        Event::Receive(worker) => {
            assert(s.worker_consistent(worker as int));
            assert forall|t: int| 0 <= t < n.items.len() implies #[trigger] n.item_consistent(t) by {
                assert(s.item_consistent(t));
            }
            assert forall|w: int| 0 <= w < n.workers.len() implies #[trigger] n.worker_consistent(
                w,
            ) by {
                assert(s.worker_consistent(w));
                if s.taken < s.items.len() {
                    assert(s.item_consistent(s.taken as int));
                }
            }
        },
        Event::Finish(worker) => {
            assert(s.worker_consistent(worker as int));
            assert forall|t: int| 0 <= t < n.items.len() implies #[trigger] n.item_consistent(t) by {
                assert(s.item_consistent(t));
            }
            assert forall|w: int| 0 <= w < n.workers.len() implies #[trigger] n.worker_consistent(
                w,
            ) by {
                assert(s.worker_consistent(w));
            }
        },
        Event::Close => {
            assert forall|t: int| 0 <= t < n.items.len() implies #[trigger] n.item_consistent(t) by {
                assert(s.item_consistent(t));
            }
            assert forall|w: int| 0 <= w < n.workers.len() implies #[trigger] n.worker_consistent(
                w,
            ) by {
                assert(s.worker_consistent(w));
            }
        },
    }
}

/// Whatever is submitted, received, finished or closed, in whatever order,
/// the invariant holds of a pool that started with at least one worker.
pub proof fn law_every_run_keeps_invariant(size: nat, events: Seq<Event>)
    requires
        size > 0,
        PoolState::init(size).admits(events),
    ensures
        PoolState::init(size).run(events).inv(),
        PoolState::init(size).run(events).workers.len() == size,
    decreases events.len(),
{
    if events.len() > 0 {
        law_every_run_keeps_invariant(size, events.drop_last());
        law_step_keeps_invariant(PoolState::init(size).run(events.drop_last()), events.last());
    }
}

/// An item is executed once, by one worker: no event creates or removes an
/// existing item, and each item only ever moves from the queue to one worker
/// and from that worker to done by that same worker.
pub proof fn law_item_runs_once(s: PoolState, event: Event, t: int)
    requires
        s.inv(),
        s.enabled(event),
        0 <= t < s.items.len(),
    ensures
        s.step(event).items.len() >= s.items.len(),
        s.items[t].advances_to(s.step(event).items[t]),
        s.step(event).tasks[t] == s.tasks[t],
{
    assert(s.item_consistent(t));
    match event {
        Event::Receive(worker) => {
            if s.taken < s.items.len() {
                assert(s.item_consistent(s.taken as int));
            }
        },
        Event::Finish(worker) => {
            assert(s.worker_consistent(worker as int));
        },
        _ => {},
    }
}

/// The pool keeps its shape: no event adds or removes a worker, and a closed
/// queue is never opened again.
pub proof fn law_pool_shape_is_fixed(s: PoolState, event: Event)
    requires
        s.inv(),
        s.enabled(event),
    ensures
        s.step(event).workers.len() == s.workers.len(),
        !s.open ==> !s.step(event).open && s.step(event).tasks == s.tasks,
{
}

/// Every worker follows its loop: from idle to running to idle again, and
/// from idle to terminated, where it stays. An event changes the state of no
/// worker but the one that it names.
pub proof fn law_worker_follows_its_loop(s: PoolState, event: Event, w: int)
    requires
        s.inv(),
        s.enabled(event),
        0 <= w < s.workers.len(),
    ensures
        s.workers[w].moves_to(s.step(event).workers[w]),
        match event {
            Event::Receive(worker) => w != worker ==> s.step(event).workers[w] == s.workers[w],
            Event::Finish(worker) => w != worker ==> s.step(event).workers[w] == s.workers[w],
            _ => s.step(event).workers[w] == s.workers[w],
        },
{
}

/// A worker never runs two items at once.
pub proof fn law_worker_runs_one_item(s: PoolState, worker: nat, t1: int, t2: int)
    requires
        s.inv(),
        0 <= t1 < s.items.len(),
        0 <= t2 < s.items.len(),
        s.items[t1] == ItemState::Running(worker),
        s.items[t2] == ItemState::Running(worker),
    ensures
        t1 == t2,
{
    assert(s.item_consistent(t1));
    assert(s.item_consistent(t2));
}

/// Items leave the queue in the order of their submission: whenever an item
/// has been received, so has every item submitted before it.
pub proof fn law_queue_is_fifo(s: PoolState, earlier: int, later: int)
    requires
        s.inv(),
        0 <= earlier <= later < s.items.len(),
        !(s.items[later] is Queued),
    ensures
        !(s.items[earlier] is Queued),
{
    assert(s.item_consistent(earlier));
    assert(s.item_consistent(later));
}

/// Once every worker has terminated, the queue is closed and empty and every
/// item ever submitted has been executed to completion: waiting for the
/// workers is waiting for all the work.
pub proof fn law_joined_pool_has_run_everything(s: PoolState)
    requires
        s.inv(),
        s.joined(),
    ensures
        !s.open,
        s.pending().len() == 0,
        s.live() == 0,
        forall|t: int| 0 <= t < s.items.len() ==> #[trigger] s.items[t] is Done,
{
    lemma_count_live_bounds(s.workers);
    assert(s.workers[0] is Terminated);
    assert(s.worker_consistent(0));
    assert forall|t: int| 0 <= t < s.items.len() implies #[trigger] s.items[t] is Done by {
        assert(s.item_consistent(t));
        match s.items[t] {
            ItemState::Running(w) => {
                assert(s.workers[w as int] is Terminated);
            },
            _ => {},
        }
    }
}

/// A worker is told to wait only by an open pool: once the queue is closed,
/// every attempt to receive ends in an item or in the worker's termination,
/// so that no worker is left blocked by a shutdown. And while the queue holds
/// anything, open or closed, the answer is its oldest item.
pub proof fn law_closed_pool_keeps_no_worker_waiting(s: PoolState)
    requires
        s.inv(),
    ensures
        Action::decide(s) is Wait ==> s.open,
        Action::decide(s) is Stop <==> !s.open && s.taken == s.tasks.len(),
        s.taken < s.tasks.len() ==> Action::decide(s) == Action::Run(s.tasks[s.taken as int]),
{
}

/// While the queue is open or holds an item, or an item is still running, the
/// pool is not joined: a worker terminates only when nothing is left for it.
pub proof fn law_worker_outlives_the_work(s: PoolState, worker: int)
    requires
        s.inv(),
        0 <= worker < s.workers.len(),
        s.open || s.pending().len() > 0,
    ensures
        !(s.workers[worker] is Terminated),
{
    assert(s.worker_consistent(worker));
}

/// While the pool is open every worker holds its end of the queue, so that a
/// submission cannot find the queue disconnected.
pub proof fn law_open_pool_is_connected(s: PoolState)
    requires
        s.inv(),
        s.open,
    ensures
        s.live() == s.workers.len(),
        s.live() > 0,
{
    lemma_count_live_bounds(s.workers);
    assert forall|w: int| 0 <= w < s.workers.len() implies !(#[trigger] s.workers[w]
        is Terminated) by {
        assert(s.worker_consistent(w));
    }
}

/// An idle worker can always serve what is waiting: receiving and finishing
/// `count` times, with no help from any other worker, it brings the `count`
/// oldest items of the queue to completion.
pub proof fn law_idle_worker_can_serve(s: PoolState, worker: nat, count: nat)
    requires
        s.inv(),
        s.enabled(Event::Receive(worker)),
        count <= s.pending().len(),
    ensures
        s.admits(serving(worker, count)),
        s.run(serving(worker, count)) == s.served(worker, count),
        s.served(worker, count).inv(),
    decreases count,
{
    if count == 0 {
        assert(s.served(worker, 0).items =~= s.items);
    } else {
        let fewer = serving(worker, (count - 1) as nat);
        let events = serving(worker, count);
        law_idle_worker_can_serve(s, worker, (count - 1) as nat);
        let m = s.served(worker, (count - 1) as nat);
        let received = events.drop_last();
        assert(received =~= fewer.push(Event::Receive(worker)));
        assert(received.drop_last() =~= fewer);
        assert(m.enabled(Event::Receive(worker)));
        assert(s.admits(received));
        law_step_keeps_invariant(m, Event::Receive(worker));
        let r = m.step(Event::Receive(worker));
        assert(s.run(received) == r);
        assert(r.enabled(Event::Finish(worker)));
        assert(s.admits(events));
        law_step_keeps_invariant(r, Event::Finish(worker));
        let f = r.step(Event::Finish(worker));
        assert(s.run(events) == f);
        assert(f.items =~= s.served(worker, count).items);
        assert(f.workers =~= s.workers);
    }
}

/// Every item is executed in the end, given one worker that is idle: after
/// serving all that waits and receiving once more, that worker has left
/// nothing in the queue, and where the queue is closed it has terminated.
pub proof fn law_idle_worker_can_drain(s: PoolState, worker: nat)
    requires
        s.inv(),
        s.enabled(Event::Receive(worker)),
    ensures
        s.admits(serving(worker, s.pending().len()).push(Event::Receive(worker))),
        s.run(serving(worker, s.pending().len()).push(Event::Receive(worker))) == s.drained(
            worker,
        ),
        s.drained(worker).inv(),
        forall|t: int| 0 <= t < s.items.len() ==> !(#[trigger] s.drained(worker).items[t] is Queued),
{
    let count = s.pending().len();
    let events = serving(worker, count).push(Event::Receive(worker));
    law_idle_worker_can_serve(s, worker, count);
    let m = s.served(worker, count);
    assert(events.drop_last() =~= serving(worker, count));
    law_step_keeps_invariant(m, Event::Receive(worker));
    assert(m.step(Event::Receive(worker)).items =~= s.drained(worker).items);
    assert forall|t: int| 0 <= t < s.items.len() implies !(#[trigger] s.drained(worker).items[t]
        is Queued) by {
        assert(s.item_consistent(t));
    }
}

} // verus!
