use crate::worker::task::TaskStatus;
use vstd::prelude::*;

verus! {

/// A progress message from a worker to the interface.
#[derive(Debug, Clone)]
pub struct ProgressUpdate {
    /// The task's id.
    pub task_id: u64,
    /// Its new status.
    pub status: TaskStatus,
    /// The file's name, for display.
    pub filename: String,
}

} // verus!
