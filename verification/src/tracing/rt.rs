//! Hook points of the runtime.

use vstd::prelude::*;

verus! {

/// Called whenever a machine is started.
pub fn machine_starting(machine_addr: u64) {
}

/// Called whenever a machine scheduled a task, locally or in the global runtime.
pub fn machine_scheduled_task(machine_addr: u64, task_id: u64, local: bool) {
}

/// Called whenever a machine is blocked and its processor is being stolen.
pub fn machine_blocked(machine_addr: u64) {
}

} // verus!
