//! A fixed-size pool of worker threads, with its scheduling rules verified.
//!
//! The library states the pool's bookkeeping as a state machine over job ids:
//! which job waits in the queue, which worker runs which job, which jobs have
//! completed, and when a worker may leave. A runtime that owns the threads
//! asks it for every decision and performs the action it returns.

pub mod config;
pub mod error;
pub mod pool;
