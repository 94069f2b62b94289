//! Work items: one-shot callables that can be handed to another thread.

use vstd::prelude::*;

verus! {

/// A no-argument, no-result computation that is consumed by its one call.
trait Job: Send {
    /// The callable's own precondition.
    spec fn ready(&self) -> bool;

    /// The callable's own postcondition.
    spec fn finished(&self) -> bool;

    fn call(self: Box<Self>)
        requires
            self.ready(),
        ensures
            self.finished(),
    ;
}

impl<F: FnOnce() + Send + 'static> Job for F {
    spec fn ready(&self) -> bool {
        call_requires(*self, ())
    }

    spec fn finished(&self) -> bool {
        call_ensures(*self, (), ())
    }

    fn call(self: Box<Self>) {
        (*self)()
    }
}

/// An opaque unit of work. It has no identity and no ordering: all that can be
/// done with it is to run it, once.
pub struct Task(Box<dyn Job>);

impl Task {
    /// Whether the wrapped callable may be invoked.
    pub closed spec fn runnable(&self) -> bool {
        self.0.ready()
    }

    /// What holds once the wrapped callable has returned.
    pub closed spec fn completes(&self) -> bool {
        self.0.finished()
    }

    /// Wraps `f` as a work item that behaves exactly as `f` does.
    pub fn new<F: FnOnce() + Send + 'static>(f: F) -> (task: Self)
        ensures
            task.runnable() == call_requires(f, ()),
            task.completes() == call_ensures(f, (), ()),
    {
        Task(Box::new(f))
    }

    /// Invokes the work item, consuming it.
    pub fn run(self)
        requires
            self.runnable(),
        ensures
            self.completes(),
    {
        self.0.call()
    }
}

} // verus!
