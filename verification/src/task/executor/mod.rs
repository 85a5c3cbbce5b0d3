//! Executors of tasks.

pub mod pool;
