use vstd::prelude::*;

verus! {

/// A file to compress and where its result goes.
#[derive(Debug, Clone)]
pub struct CompressionTask {
    pub id: u64,
    pub input_path: String,
    pub output_path: String,
}

/// The life of a task: `Pending`, then `Processing`, then `Completed` with both sizes
/// or `Failed` with the error.
#[derive(Debug, Clone)]
pub enum TaskStatus {
    Pending,
    Processing,
    Completed { original_size: u64, compressed_size: u64 },
    Failed { error: String },
}

impl TaskStatus {
    pub fn is_pending(&self) -> (r: bool)
        ensures
            r == self is Pending,
    {
        match self {
            TaskStatus::Pending => true,
            _ => false,
        }
    }

    pub fn is_completed(&self) -> (r: bool)
        ensures
            r == self is Completed,
    {
        match self {
            TaskStatus::Completed { .. } => true,
            _ => false,
        }
    }

    pub fn is_failed(&self) -> (r: bool)
        ensures
            r == self is Failed,
    {
        match self {
            TaskStatus::Failed { .. } => true,
            _ => false,
        }
    }
}

} // verus!
