//! A runtime whose machines stay registered while they poll the reactor.

pub mod scheduler;
