//! Tasks.

pub mod builder;
pub mod executor;
