//! What a machine thread is told to do.

use vstd::prelude::*;

verus! {

/// Number of yields when no runnable task is found.
pub const YIELDS: u32 = 3;

/// Number of short sleeps when no runnable task is found.
pub const SLEEPS: u32 = 1;

/// Number of tasks run in a row after which the global queue gets its turn.
pub const RUNS: u32 = 64;

/// The length of a short sleep, in microseconds.
pub const SHORT_SLEEP: u64 = 10;

/// What a machine thread has to do next.
#[derive(Clone, Copy, Debug, PartialEq, Eq, Structural)]
pub enum Action {
    /// Nothing but to ask for the next step.
    Continue,
    /// Run a task.
    Run(u64),
    /// Poll the reactor without waiting.
    QuickPoll,
    /// Yield the current thread.
    Yield,
    /// Sleep for this number of microseconds.
    Sleep(u64),
    /// Poll the reactor and wait for an event.
    Block,
    /// End.
    Exit,
}

/// The outcome of a step of a machine thread.
#[derive(Clone, Copy, Debug, PartialEq, Eq, Structural)]
pub struct Step {
    /// The reactor has to be notified, before anything else, so that polling stops blocking.
    pub notify: bool,
    /// What has to be done next.
    pub action: Action,
}

} // verus!
