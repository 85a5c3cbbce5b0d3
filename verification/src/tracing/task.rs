//! Hook points of tasks.

use vstd::prelude::*;

verus! {

/// Called whenever a task is spawned.
///
/// Both the task id and its parents id will be passed, along with the name, if given.
///
/// The id may be reused, but it is guaranteed that between `spawn` and the drop of the task, the
/// task remains the same.
pub fn spawn(task_id: u64, parent_id: u64, name: Option<&str>) {
}

/// Called whenever a task is completed. The id is the id of the current task.
pub fn completed(task_id: u64) {
}

} // verus!
