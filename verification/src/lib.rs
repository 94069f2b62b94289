//! A fixed-size worker pool, written as a verified scheduling core.
//!
//! The pool owns a FIFO work queue and a fixed set of workers. Every decision
//! the pool makes (what a worker does next, when it may stop, when the pool is
//! drained) is a function of this crate with a proved contract; the threads
//! that carry the workers live with the caller.

pub mod task;
pub mod queue;
pub mod model;
pub mod pool;
pub mod laws;

pub use crate::pool::ThreadPool;
pub use crate::task::Task;
