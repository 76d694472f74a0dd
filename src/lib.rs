//! A fixed-size pool of workers that take jobs from one shared FIFO queue.
//!
//! The library holds the pool's bookkeeping as a state machine: which jobs
//! are pending, which worker runs which job, when submission closes and when
//! each worker may leave and be joined. A host drives it under a lock: its
//! threads ask the pool for their next step, run the jobs they are handed,
//! and report back.
use vstd::prelude::*;

pub mod http;
pub mod pool;
pub mod queue;

verus! {

/// Why an operation of the pool was refused.
#[derive(Debug, Clone, Copy, PartialEq, Eq, Structural)]
pub enum PoolError {
    /// A pool was asked for with no worker at all.
    InvalidPoolSize,
    /// A job was submitted after submission had been closed.
    QueueClosed,
}

} // verus!
