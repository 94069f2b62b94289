//! The work queue: an unbounded first-in first-out channel of work items with
//! one producer end, which can be closed, and a number of consumer ends, which
//! their holders drop one by one.

use vstd::prelude::*;
use std::collections::VecDeque;
use crate::task::Task;

verus! {

/// What an attempt to receive from the queue finds.
pub enum Received {
    /// The oldest item of the queue, which has left it.
    Item(Task),
    /// Nothing yet: the queue is empty and its producer end is present. The
    /// receiver waits and tries again.
    Empty,
    /// Nothing any more: the queue is empty and its producer end is gone.
    Closed,
}

/// The queue between the pool and its workers.
pub struct WorkQueue {
    pending: VecDeque<Task>,
    open: bool,
    receivers: usize,
}

impl View for WorkQueue {
    type V = Seq<Task>;

    /// The items in the queue, oldest first.
    closed spec fn view(&self) -> Seq<Task> {
        self.pending@
    }
}

impl WorkQueue {
    /// Whether the producer end is still present.
    pub closed spec fn open(&self) -> bool {
        self.open
    }

    /// How many consumer ends are still held.
    pub closed spec fn receivers(&self) -> nat {
        self.receivers as nat
    }

    /// An empty queue with its producer end present and `receivers` consumer
    /// ends.
    pub fn new(receivers: usize) -> (queue: Self)
        ensures
            queue@ == Seq::<Task>::empty(),
            queue.open(),
            queue.receivers() == receivers,
    {
        WorkQueue { pending: VecDeque::new(), open: true, receivers }
    }

    /// How many consumer ends are still held.
    pub fn receiver_count(&self) -> (count: usize)
        ensures
            count == self.receivers(),
    {
        self.receivers
    }

    /// Whether the producer end is still present.
    pub fn is_open(&self) -> (open: bool)
        ensures
            open == self.open(),
    {
        self.open
    }

    /// The number of items in the queue.
    pub fn len(&self) -> (len: usize)
        ensures
            len == self@.len(),
    {
        self.pending.len()
    }

    /// Whether the queue still joins a producer to a consumer.
    pub open spec fn connected(&self) -> bool {
        self.open() && self.receivers() > 0
    }

    /// Appends `task` to the queue, without waiting for anyone to receive it,
    /// as long as the producer end and at least one consumer end exist. Else
    /// the queue is disconnected: it is left as it is and the item is handed
    /// back.
    pub fn send(&mut self, task: Task) -> (sent: Result<(), Task>)
        ensures
            final(self).open() == old(self).open(),
            final(self).receivers() == old(self).receivers(),
            old(self).connected() ==> sent == Ok::<(), Task>(()) && final(self)@ == old(self)@.push(
                task,
            ),
            !old(self).connected() ==> sent == Err::<(), Task>(task) && final(self)@ == old(self)@,
    {
        if self.open && self.receivers > 0 {
            self.pending.push_back(task);
            Ok(())
        } else {
            Err(task)
        }
    }

    /// Takes the oldest item out of the queue, if there is one. Items that
    /// were sent before the producer end was dropped are still delivered:
    /// the queue reports closed only when it is empty as well.
    pub fn receive(&mut self) -> (received: Received)
        ensures
            final(self).open() == old(self).open(),
            final(self).receivers() == old(self).receivers(),
            old(self)@.len() > 0 ==> received == Received::Item(old(self)@[0]) && final(self)@
                == old(self)@.subrange(1, old(self)@.len() as int),
            old(self)@.len() == 0 ==> final(self)@ == old(self)@,
            old(self)@.len() == 0 && old(self).open() ==> received == Received::Empty,
            old(self)@.len() == 0 && !old(self).open() ==> received == Received::Closed,
    {
        match self.pending.pop_front() {
            Some(task) => Received::Item(task),
            None => if self.open {
                Received::Empty
            } else {
                Received::Closed
            },
        }
    }

    /// Drops the producer end. What is in the queue stays there.
    pub fn close(&mut self)
        ensures
            !final(self).open(),
            final(self).receivers() == old(self).receivers(),
            final(self)@ == old(self)@,
    {
        self.open = false;
    }

    /// Drops one consumer end, if any is left. What is in the queue stays
    /// there.
    pub fn disconnect(&mut self)
        ensures
            final(self).open() == old(self).open(),
            final(self)@ == old(self)@,
            old(self).receivers() > 0 ==> final(self).receivers() == old(self).receivers() - 1,
            old(self).receivers() == 0 ==> final(self).receivers() == 0,
    {
        if self.receivers > 0 {
            self.receivers = self.receivers - 1;
        }
    }
}

} // verus!
