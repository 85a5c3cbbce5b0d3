//! The runtime.

pub mod reactor;
pub mod runtime;
