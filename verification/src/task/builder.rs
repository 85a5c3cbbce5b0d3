//! Task builders.

use crate::tracing;
use vstd::prelude::*;

verus! {

/// Task builder that configures the settings of a new task.
#[derive(Debug)]
pub struct Builder {
    name: Option<String>,
}

/// What is known of a task when it is spawned.
#[derive(Debug)]
pub struct Spawn {
    /// The name of the task, if it has one.
    pub name: Option<String>,
    /// The identifier of the task.
    pub task_id: u64,
    /// The identifier of the task that spawns it, or zero.
    pub parent_task_id: u64,
}

impl Default for Builder {
    fn default() -> (b: Builder)
        ensures
            b.configured_name() is None,
    {
        Builder { name: None }
    }
}

impl Builder {
    /// The name that is configured.
    pub closed spec fn configured_name(&self) -> Option<String> {
        self.name
    }

    /// Creates a new builder.
    pub fn new() -> (b: Builder)
        ensures
            b.configured_name() is None,
    {
        Builder { name: None }
    }

    /// Configures the name of the task.
    pub fn name(self, name: String) -> (b: Builder)
        ensures
            b.configured_name() == Some(name),
    {
        Builder { name: Some(name) }
    }

    /// Spawns a task with the configured settings: determines what it is known by, and reports
    /// that it is spawned by the current task, if there is one.
    pub fn spawn(self, task_id: u64, current: Option<u64>) -> (s: Spawn)
        ensures
            s.name == self.configured_name(),
            s.task_id == task_id,
            s.parent_task_id == match current {
                Some(parent) => parent,
                None => 0,
            },
    {
        let parent_task_id: u64 = current.unwrap_or(0);
        match &self.name {
            Some(name) => tracing::task::spawn(task_id, parent_task_id, Some(name.as_str())),
            None => tracing::task::spawn(task_id, parent_task_id, None),
        }
        Spawn { name: self.name, task_id, parent_task_id }
    }
}

} // verus!
