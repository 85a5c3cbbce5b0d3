//! The scheduling core of an asynchronous runtime: task queues, worker machines, the supervisors
//! that keep machines running, and the bookkeeping of the I/O reactor.

pub mod action;
pub mod backoff;
pub mod cpus;
pub mod crew;
pub mod fleet;
pub mod history;
pub mod laws;
pub mod processor;
pub mod queue;
pub mod rt;
pub mod runtime;
pub mod task;
pub mod tracing;
