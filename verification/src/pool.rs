//! The pool: a fixed set of workers around one work queue.
//!
//! The pool decides; its caller acts. A worker's thread asks the pool what to
//! do next with `receive`, runs the item it is handed outside the pool, and
//! reports back with `finish`. `shutdown` closes the queue and names the
//! workers to wait for.

use vstd::prelude::*;
use crate::laws::law_step_keeps_invariant;
use crate::model::{
    lemma_count_live_bounds, lemma_count_live_update, Event, ItemState, PoolState, WorkerState,
};
use crate::queue::{Received, WorkQueue};
use crate::task::Task;

verus! {

/// The phase of a worker's loop.
#[derive(Clone, Copy, PartialEq, Eq, Structural, Debug)]
pub enum Phase {
    /// Waiting to receive.
    Idle,
    /// Executing an item.
    Running,
    /// Out of its loop, for good.
    Terminated,
}

impl Phase {
    /// The phase of a worker in the given state.
    pub open spec fn of(state: WorkerState) -> Phase {
        match state {
            WorkerState::Idle => Phase::Idle,
            WorkerState::Running(_) => Phase::Running,
            WorkerState::Terminated => Phase::Terminated,
        }
    }
}

/// What a worker that attempted to receive has to do next.
pub enum Action {
    /// Execute this item, then report that it is finished.
    Run(Task),
    /// Block until something is submitted or the queue is closed, then
    /// attempt to receive again.
    Wait,
    /// Leave the loop: the queue is closed and empty.
    Stop,
}

impl Action {
    /// What a worker that attempts to receive in state `s` is told: the
    /// oldest item in the queue if there is one, else to wait while the queue
    /// is open and to stop once it is closed.
    pub open spec fn decide(s: PoolState) -> Action {
        if s.pending().len() > 0 {
            Action::Run(s.pending()[0])
        } else if s.open {
            Action::Wait
        } else {
            Action::Stop
        }
    }
}

/// One worker of the pool: its ordinal and where it stands in its loop.
#[derive(Clone, Copy)]
struct Worker {
    id: usize,
    phase: Phase,
}

impl Worker {
    /// The worker with ordinal `id`, about to receive for the first time.
    fn new(id: usize) -> (worker: Self)
        ensures
            worker.id == id,
            worker.phase == Phase::Idle,
    {
        Worker { id, phase: Phase::Idle }
    }

    /// One turn of the loop of an idle worker, given what its attempt to
    /// receive found: an item is to be run, and the worker is running; an
    /// empty queue is to be waited on, and the worker stays idle; a closed
    /// queue ends the loop, and the worker is terminated.
    fn turn(self, received: Received) -> (next: (Worker, Action))
        requires
            self.phase == Phase::Idle,
        ensures
            next.0.id == self.id,
            match received {
                Received::Item(task) => next.0.phase == Phase::Running && next.1 == Action::Run(
                    task,
                ),
                Received::Empty => next.0.phase == Phase::Idle && next.1 == Action::Wait,
                Received::Closed => next.0.phase == Phase::Terminated && next.1 == Action::Stop,
            },
    {
        match received {
            Received::Item(task) => (Worker { id: self.id, phase: Phase::Running }, Action::Run(task)),
            Received::Empty => (self, Action::Wait),
            Received::Closed => (Worker { id: self.id, phase: Phase::Terminated }, Action::Stop),
        }
    }

    /// The worker after the item that it was running has returned: idle, and
    /// about to receive again.
    fn rest(self) -> (worker: Self)
        requires
            self.phase == Phase::Running,
        ensures
            worker.id == self.id,
            worker.phase == Phase::Idle,
    {
        Worker { id: self.id, phase: Phase::Idle }
    }
}

/// A pool of a fixed number of workers.
pub struct ThreadPool {
    workers: Vec<Worker>,
    queue: WorkQueue,
    state: Ghost<PoolState>,
}

impl View for ThreadPool {
    type V = PoolState;

    closed spec fn view(&self) -> PoolState {
        self.state@
    }
}

impl ThreadPool {
    /// Whether the pool's queue and workers are as its state says.
    pub closed spec fn wf(&self) -> bool {
        &&& self.state@.inv()
        &&& self.queue@ == self.state@.pending()
        &&& self.queue.open() == self.state@.open
        &&& self.queue.receivers() == self.state@.live()
        &&& self.workers.len() == self.state@.workers.len()
        &&& forall|w: int|
            0 <= w < self.workers.len() ==> (#[trigger] self.workers[w]).id == w
                && self.workers[w].phase == Phase::of(self.state@.workers[w])
    }

    /// The state of a well-formed pool meets the pool's invariant.
    pub proof fn lemma_wf_state(&self)
        requires
            self.wf(),
        ensures
            self@.inv(),
    {
    }

    /// A pool of `size` idle workers around an empty, open queue.
    pub fn new(size: usize) -> (pool: Self)
        requires
            size > 0,
        ensures
            pool.wf(),
            pool@ == PoolState::init(size as nat),
    {
        let mut workers: Vec<Worker> = Vec::new();
        let mut id: usize = 0;
        while id < size
            invariant
                id <= size,
                workers.len() == id,
                forall|w: int|
                    0 <= w < id ==> (#[trigger] workers[w]).id == w && workers[w].phase
                        == Phase::Idle,
            decreases size - id,
        {
            workers.push(Worker::new(id));
            id += 1;
        }
        let pool = ThreadPool {
            workers,
            queue: WorkQueue::new(size),
            state: Ghost(PoolState::init(size as nat)),
        };
        proof {
            assert(pool.queue@ =~= pool.state@.pending());
            lemma_count_live_bounds(pool.state@.workers);
        }
        pool
    }

    /// The number of workers.
    pub fn size(&self) -> (size: usize)
        requires
            self.wf(),
        ensures
            size == self@.workers.len(),
    {
        self.workers.len()
    }

    /// Whether the pool still accepts work.
    pub fn is_open(&self) -> (open: bool)
        requires
            self.wf(),
        ensures
            open == self@.open,
    {
        self.queue.is_open()
    }

    /// The number of items waiting in the queue.
    pub fn pending(&self) -> (count: usize)
        requires
            self.wf(),
        ensures
            count == self@.pending().len(),
    {
        self.queue.len()
    }

    /// The phase of the worker with ordinal `worker`, if there is one.
    pub fn phase(&self, worker: usize) -> (phase: Option<Phase>)
        requires
            self.wf(),
        ensures
            worker < self@.workers.len() ==> phase == Some(Phase::of(self@.workers[worker as int])),
            worker >= self@.workers.len() ==> phase.is_none(),
    {
        if worker < self.workers.len() {
            Some(self.workers[worker].phase)
        } else {
            None
        }
    }

    /// Whether every worker has terminated, which is when waiting for the
    /// workers in turn comes to its end.
    pub fn is_joined(&self) -> (joined: bool)
        requires
            self.wf(),
        ensures
            joined == self@.joined(),
    {
        let mut w: usize = 0;
        while w < self.workers.len()
            invariant
                self.wf(),
                w <= self.workers.len(),
                forall|v: int| 0 <= v < w ==> #[trigger] self.state@.workers[v] is Terminated,
            decreases self.workers.len() - w,
        {
            if self.workers[w].phase != Phase::Terminated {
                assert(!(self.state@.workers[w as int] is Terminated));
                return false;
            }
            w += 1;
        }
        true
    }

    /// Submits `task`: it joins the queue behind everything submitted before.
    /// The caller is not held up, and nothing else changes. Submitting to a
    /// pool whose queue has been closed is not part of the pool's interface.
    pub fn submit(&mut self, task: Task)
        requires
            old(self).wf(),
            old(self)@.enabled(Event::Submit(task)),
        ensures
            final(self).wf(),
            final(self)@ == old(self)@.step(Event::Submit(task)),
    {
        let ghost before = self.state@;
        let ghost item = task;
        proof {
            lemma_count_live_bounds(before.workers);
            assert forall|w: int| 0 <= w < before.workers.len() implies !(#[trigger] before.workers[w]
                is Terminated) by {
                assert(before.worker_consistent(w));
            }
        }
        let sent = self.queue.send(task);
        assert(sent is Ok);
        self.state = Ghost(before.submit(item));
        proof {
            law_step_keeps_invariant(before, Event::Submit(item));
            assert(self.queue@ =~= self.state@.pending());
        }
    }

    /// Wraps `f` as a work item and submits it. The item is the youngest of
    /// the pool's items, and it behaves as `f` does.
    pub fn execute<F>(&mut self, f: F) where F: FnOnce() + Send + 'static
        requires
            old(self).wf(),
            old(self)@.open,
            call_requires(f, ()),
        ensures
            final(self).wf(),
            final(self)@.tasks.len() == old(self)@.tasks.len() + 1,
            final(self)@ == old(self)@.step(Event::Submit(final(self)@.tasks.last())),
            final(self)@.tasks.last().runnable(),
            final(self)@.tasks.last().completes() == call_ensures(f, (), ()),
    {
        self.submit(Task::new(f));
    }

    /// The idle worker with ordinal `worker` attempts to receive. It is
    /// handed the oldest item of the queue and is running from then on; or,
    /// the queue being empty, it is told to wait, and stays idle, while the
    /// queue is open, and to stop, and is terminated, once it is closed.
    pub fn receive(&mut self, worker: usize) -> (action: Action)
        requires
            old(self).wf(),
            old(self)@.enabled(Event::Receive(worker as nat)),
        ensures
            final(self).wf(),
            final(self)@ == old(self)@.step(Event::Receive(worker as nat)),
            action == Action::decide(old(self)@),
    {
        let ghost before = self.state@;
        let received = self.queue.receive();
        let (next, action) = self.workers[worker].turn(received);
        self.workers.set(worker, next);
        if next.phase == Phase::Terminated {
            self.queue.disconnect();
        }
        self.state = Ghost(before.receive(worker as nat));
        proof {
            lemma_count_live_update(before.workers, worker as int, self.state@.workers[worker as int]);
            assert(self.state@.workers =~= before.workers.update(
                worker as int,
                self.state@.workers[worker as int],
            ));
            lemma_count_live_bounds(before.workers);
            law_step_keeps_invariant(before, Event::Receive(worker as nat));
            assert(self.queue@ =~= self.state@.pending());
        }
        action
    }

    /// The running worker with ordinal `worker` reports that its item has
    /// returned. The item is done, by this worker, and the worker is idle.
    pub fn finish(&mut self, worker: usize)
        requires
            old(self).wf(),
            old(self)@.enabled(Event::Finish(worker as nat)),
        ensures
            final(self).wf(),
            final(self)@ == old(self)@.step(Event::Finish(worker as nat)),
    {
        let ghost before = self.state@;
        let rested = self.workers[worker].rest();
        self.workers.set(worker, rested);
        self.state = Ghost(before.finish(worker as nat));
        proof {
            lemma_count_live_update(before.workers, worker as int, WorkerState::Idle);
            law_step_keeps_invariant(before, Event::Finish(worker as nat));
            assert(self.queue@ =~= self.state@.pending());
        }
    }

    /// Runs the loop of the idle worker with ordinal `worker` on the calling
    /// thread until it would have to wait or has to stop: it receives and
    /// executes one item after the other, oldest first, until the queue is
    /// empty. Every item that was waiting is then done, by this worker, and
    /// has returned; what was done or running before is as it was. The result
    /// is never an item: it says to wait, the worker being idle again, if the
    /// queue is open, and to stop, the worker being terminated, if not.
    pub fn drain(&mut self, worker: usize) -> (action: Action)
        requires
            old(self).wf(),
            old(self)@.enabled(Event::Receive(worker as nat)),
        ensures
            final(self).wf(),
            final(self)@ == old(self)@.drained(worker as nat),
            forall|t: int|
                old(self)@.taken <= t < old(self)@.tasks.len() ==> (#[trigger] old(
                    self,
                )@.tasks[t]).completes(),
            action == if old(self)@.open {
                Action::Wait
            } else {
                Action::Stop
            },
    {
        let ghost start = self.state@;
        loop
            invariant
                self.wf(),
                self@.enabled(Event::Receive(worker as nat)),
                start == old(self)@,
                start.inv(),
                start.taken <= self@.taken,
                self@.open == start.open,
                self@.tasks == start.tasks,
                self@.workers == start.workers,
                self@.items.len() == start.items.len(),
                forall|t: int| 0 <= t < start.taken ==> self@.items[t] == start.items[t],
                forall|t: int|
                    start.taken <= t < self@.taken ==> self@.items[t] == ItemState::Done(
                        worker as nat,
                    ),
                forall|t: int|
                    start.taken <= t < self@.taken ==> (#[trigger] start.tasks[t]).completes(),
            decreases self@.tasks.len() - self@.taken,
        {
            let ghost before = self.state@;
            proof {
                self.lemma_wf_state();
            }
            match self.receive(worker) {
                Action::Run(task) => {
                    assert(task == before.tasks[before.taken as int]);
                    task.run();
                    self.finish(worker);
                    proof {
                        assert(self@.workers =~= start.workers);
                    }
                },
                Action::Wait => {
                    proof {
                        assert(before.pending().len() == 0);
                        assert(self@.taken == self@.items.len());
                        assert(self@.items =~= start.drained(worker as nat).items);
                    }
                    return Action::Wait;
                },
                Action::Stop => {
                    proof {
                        assert(before.pending().len() == 0);
                        assert(self@.taken == self@.items.len());
                        assert(self@.items =~= start.drained(worker as nat).items);
                    }
                    return Action::Stop;
                },
            }
        }
    }

    /// Drops the producer end of the queue. Items already in the queue stay
    /// there and are still handed out. Closing a closed pool changes nothing.
    pub fn close(&mut self)
        ensures
            old(self).wf() ==> final(self).wf(),
            final(self)@ == old(self)@.step(Event::Close),
    {
        let ghost before = self.state@;
        self.queue.close();
        self.state = Ghost(before.close());
        proof {
            if old(self).wf() {
                law_step_keeps_invariant(before, Event::Close);
            }
        }
    }

    /// Begins the shutdown: closes the queue first, and returns the workers
    /// to wait for, each to its termination, in the order of their creation.
    pub fn shutdown(&mut self) -> (order: Vec<usize>)
        requires
            old(self).wf(),
        ensures
            final(self).wf(),
            final(self)@ == old(self)@.step(Event::Close),
            order@ == Seq::new(old(self)@.workers.len(), |w: int| w as usize),
    {
        self.close();
        let mut order: Vec<usize> = Vec::new();
        let mut w: usize = 0;
        while w < self.workers.len()
            invariant
                w <= self.workers.len(),
                order@ == Seq::new(w as nat, |v: int| v as usize),
            decreases self.workers.len() - w,
        {
            order.push(w);
            proof {
                assert(order@ =~= Seq::new((w + 1) as nat, |v: int| v as usize));
            }
            w += 1;
        }
        order
    }
}

} // verus!
