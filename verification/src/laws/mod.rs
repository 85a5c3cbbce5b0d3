//! What the operations of the library do, stated of the fields of their states.
//!
//! The contracts of the operations speak of named relations between states. The laws here say what
//! those relations come to: which queue, slot, flag or list changes and how, and that nothing else
//! does.

pub mod backoff;
pub mod fleet;
pub mod pool;
pub mod queues;
pub mod reactor;
pub mod runtime;
pub mod scheduler;
