//! The pool as a transition system over plain mathematical values.
//!
//! Work items are numbered by the order of their submission (their ticket);
//! workers are numbered by the order of their creation (their ordinal). The
//! executable pool is specified by the transitions defined here.

use vstd::prelude::*;
use crate::task::Task;

verus! {

/// Where a work item stands in its life. The number is a worker's ordinal.
pub enum ItemState {
    /// Submitted and owned by the queue.
    Queued,
    /// Received by the named worker, which is executing it.
    Running(nat),
    /// Executed to completion by the named worker.
    Done(nat),
}

/// What a worker is doing. The number is the ticket of a work item.
pub enum WorkerState {
    /// Waiting to receive.
    Idle,
    /// Executing the named item.
    Running(nat),
    /// Has seen the queue closed and has left its loop for good.
    Terminated,
}

/// Everything that can happen to a pool after its construction.
pub enum Event {
    /// A caller submits a work item.
    Submit(Task),
    /// The named idle worker attempts to receive.
    Receive(nat),
    /// The named running worker returns from its item.
    Finish(nat),
    /// The producer end of the queue is dropped.
    Close,
}

/// The state of a pool.
pub struct PoolState {
    /// Whether the producer end of the queue is still present.
    pub open: bool,
    /// Every item ever submitted, by ticket.
    pub tasks: Seq<Task>,
    /// The state of every item ever submitted, by ticket.
    pub items: Seq<ItemState>,
    /// How many items have left the queue. Since the queue is first-in
    /// first-out, these are the tickets below this number.
    pub taken: nat,
    /// The state of every worker, by ordinal.
    pub workers: Seq<WorkerState>,
}

/// How many of `workers` have not terminated.
pub open spec fn count_live(workers: Seq<WorkerState>) -> nat
    decreases workers.len(),
{
    if workers.len() == 0 {
        0
    } else if workers.last() is Terminated {
        count_live(workers.drop_last())
    } else {
        count_live(workers.drop_last()) + 1
    }
}

/// Replacing one worker's state changes the number of live workers by what
/// that worker alone contributes.
pub proof fn lemma_count_live_update(workers: Seq<WorkerState>, w: int, state: WorkerState)
    requires
        0 <= w < workers.len(),
    ensures
        count_live(workers.update(w, state)) + (if workers[w] is Terminated {
            0nat
        } else {
            1nat
        }) == count_live(workers) + (if state is Terminated {
            0nat
        } else {
            1nat
        }),
    decreases workers.len(),
{
    let updated = workers.update(w, state);
    if w == workers.len() - 1 {
        assert(updated.drop_last() =~= workers.drop_last());
    } else {
        assert(updated.drop_last() =~= workers.drop_last().update(w, state));
        lemma_count_live_update(workers.drop_last(), w, state);
    }
}

/// The live workers are all of them exactly when none has terminated, and
/// none of them exactly when all have.
pub proof fn lemma_count_live_bounds(workers: Seq<WorkerState>)
    ensures
        count_live(workers) <= workers.len(),
        count_live(workers) == workers.len() <==> forall|w: int|
            0 <= w < workers.len() ==> !(#[trigger] workers[w] is Terminated),
        count_live(workers) == 0 <==> forall|w: int|
            0 <= w < workers.len() ==> #[trigger] workers[w] is Terminated,
    decreases workers.len(),
{
    if workers.len() > 0 {
        let front = workers.drop_last();
        lemma_count_live_bounds(front);
        assert(forall|w: int| 0 <= w < front.len() ==> front[w] == workers[w]);
        if workers.last() is Terminated {
            if forall|w: int| 0 <= w < front.len() ==> #[trigger] front[w] is Terminated {
                assert forall|w: int| 0 <= w < workers.len() implies #[trigger] workers[w]
                    is Terminated by {
                    if w < front.len() {
                        assert(front[w] is Terminated);
                    }
                }
            }
        } else {
            if forall|w: int| 0 <= w < front.len() ==> !(#[trigger] front[w] is Terminated) {
                assert forall|w: int| 0 <= w < workers.len() implies !(#[trigger] workers[w]
                    is Terminated) by {
                    if w < front.len() {
                        assert(!(front[w] is Terminated));
                    }
                }
            }
        }
    }
}

/// The events by which one worker alone serves `count` items: it receives
/// and finishes, `count` times over.
pub open spec fn serving(worker: nat, count: nat) -> Seq<Event>
    decreases count,
{
    if count == 0 {
        Seq::empty()
    } else {
        serving(worker, (count - 1) as nat).push(Event::Receive(worker)).push(
            Event::Finish(worker),
        )
    }
}

impl ItemState {
    /// The only ways in which an item's state may differ between two moments:
    /// it is received by some worker, or it is completed by the worker that
    /// received it. Nothing leads back.
    pub open spec fn advances_to(self, later: ItemState) -> bool {
        match self {
            ItemState::Queued => later is Queued || later is Running,
            ItemState::Running(w) => later == self || later == ItemState::Done(w),
            ItemState::Done(_) => later == self,
        }
    }
}

impl WorkerState {
    /// The only ways in which a worker's state may differ between two
    /// moments: an idle worker receives an item or terminates, and a running
    /// worker becomes idle. Nothing leads from running to terminated without
    /// the item's end, and nothing leads out of terminated.
    pub open spec fn moves_to(self, later: WorkerState) -> bool {
        match self {
            WorkerState::Idle => true,
            WorkerState::Running(_) => later == self || later is Idle,
            WorkerState::Terminated => later is Terminated,
        }
    }
}

impl PoolState {
    /// A fresh pool of `size` workers.
    pub open spec fn init(size: nat) -> PoolState {
        PoolState {
            open: true,
            tasks: Seq::empty(),
            items: Seq::empty(),
            taken: 0,
            workers: Seq::new(size, |w: int| WorkerState::Idle),
        }
    }

    /// The contents of the queue, oldest first.
    pub open spec fn pending(self) -> Seq<Task> {
        self.tasks.subrange(self.taken as int, self.tasks.len() as int)
    }

    /// How many workers still hold a consumer end of the queue: those that
    /// have not terminated.
    pub open spec fn live(self) -> nat {
        count_live(self.workers)
    }

    /// Whether every worker has terminated.
    pub open spec fn joined(self) -> bool {
        forall|w: int| 0 <= w < self.workers.len() ==> #[trigger] self.workers[w] is Terminated
    }

    pub open spec fn submit(self, task: Task) -> PoolState {
        PoolState {
            tasks: self.tasks.push(task),
            items: self.items.push(ItemState::Queued),
            ..self
        }
    }

    pub open spec fn receive(self, worker: nat) -> PoolState {
        if self.taken < self.items.len() {
            PoolState {
                items: self.items.update(self.taken as int, ItemState::Running(worker)),
                taken: self.taken + 1,
                workers: self.workers.update(worker as int, WorkerState::Running(self.taken)),
                ..self
            }
        } else if self.open {
            self
        } else {
            PoolState {
                workers: self.workers.update(worker as int, WorkerState::Terminated),
                ..self
            }
        }
    }

    pub open spec fn finish(self, worker: nat) -> PoolState {
        match self.workers[worker as int] {
            WorkerState::Running(ticket) => PoolState {
                items: self.items.update(ticket as int, ItemState::Done(worker)),
                workers: self.workers.update(worker as int, WorkerState::Idle),
                ..self
            },
            _ => self,
        }
    }

    pub open spec fn close(self) -> PoolState {
        PoolState { open: false, ..self }
    }

    /// The state after the idle worker `worker` has received and finished the
    /// `count` oldest items of the queue, one after the other.
    pub open spec fn served(self, worker: nat, count: nat) -> PoolState {
        PoolState {
            items: Seq::new(
                self.items.len(),
                |t: int|
                    if self.taken <= t < self.taken + count {
                        ItemState::Done(worker)
                    } else {
                        self.items[t]
                    },
            ),
            taken: self.taken + count,
            ..self
        }
    }

    /// The state after the idle worker `worker` has received and finished
    /// one item after the other until the queue was empty, and has then
    /// attempted to receive once more.
    pub open spec fn drained(self, worker: nat) -> PoolState {
        PoolState {
            items: Seq::new(
                self.items.len(),
                |t: int|
                    if t < self.taken {
                        self.items[t]
                    } else {
                        ItemState::Done(worker)
                    },
            ),
            taken: self.items.len(),
            workers: if self.open {
                self.workers
            } else {
                self.workers.update(worker as int, WorkerState::Terminated)
            },
            ..self
        }
    }

    /// Whether `event` may happen in this state: only an open pool accepts a
    /// submission, only an idle worker receives, only a running worker
    /// finishes.
    pub open spec fn enabled(self, event: Event) -> bool {
        match event {
            Event::Submit(task) => self.open && task.runnable(),
            Event::Receive(worker) => worker < self.workers.len()
                && self.workers[worker as int] is Idle,
            Event::Finish(worker) => worker < self.workers.len()
                && self.workers[worker as int] is Running,
            Event::Close => true,
        }
    }

    /// The state after `event`.
    pub open spec fn step(self, event: Event) -> PoolState {
        match event {
            Event::Submit(task) => self.submit(task),
            Event::Receive(worker) => self.receive(worker),
            Event::Finish(worker) => self.finish(worker),
            Event::Close => self.close(),
        }
    }

    /// The state after `events`, one after the other.
    pub open spec fn run(self, events: Seq<Event>) -> PoolState
        decreases events.len(),
    {
        if events.len() == 0 {
            self
        } else {
            self.run(events.drop_last()).step(events.last())
        }
    }

    /// Whether each of `events` may happen at its turn.
    pub open spec fn admits(self, events: Seq<Event>) -> bool
        decreases events.len(),
    {
        if events.len() == 0 {
            true
        } else {
            self.admits(events.drop_last()) && self.run(events.drop_last()).enabled(events.last())
        }
    }

    /// What the pool's bookkeeping says of the item with ticket `t`.
    pub open spec fn item_consistent(self, t: int) -> bool {
        match self.items[t] {
            ItemState::Queued => t >= self.taken,
            ItemState::Running(w) => t < self.taken && w < self.workers.len()
                && self.workers[w as int] == WorkerState::Running(t as nat),
            ItemState::Done(w) => t < self.taken && w < self.workers.len(),
        }
    }

    /// What the pool's bookkeeping says of the worker with ordinal `w`.
    pub open spec fn worker_consistent(self, w: int) -> bool {
        match self.workers[w] {
            WorkerState::Idle => true,
            WorkerState::Running(t) => t < self.items.len()
                && self.items[t as int] == ItemState::Running(w as nat),
            WorkerState::Terminated => !self.open && self.taken == self.items.len(),
        }
    }

    /// The invariant of the pool: there is at least one worker; the queue
    /// holds exactly the items not yet received, which are the youngest; an
    /// item is running on a worker exactly when that worker is running that
    /// item; a worker has terminated only after the queue was closed and
    /// emptied; and every item was fit to run when it was submitted.
    pub open spec fn inv(self) -> bool {
        &&& self.workers.len() > 0
        &&& self.items.len() == self.tasks.len()
        &&& self.taken <= self.items.len()
        &&& forall|t: int| 0 <= t < self.items.len() ==> #[trigger] self.item_consistent(t)
        &&& forall|w: int| 0 <= w < self.workers.len() ==> #[trigger] self.worker_consistent(w)
        &&& forall|t: int| 0 <= t < self.tasks.len() ==> (#[trigger] self.tasks[t]).runnable()
    }
}

} // verus!
