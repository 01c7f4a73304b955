pub mod progress;
pub mod task;

use std::sync::atomic::{AtomicBool, Ordering};
use std::sync::Arc;
use vstd::prelude::*;

verus! {

/// Calls `Arc::clone`, which its documentation describes as another pointer to the same
/// allocation: the handle holds the very flag that `flag` holds.
#[verifier::external_body]
fn share_flag(flag: &Arc<AtomicBool>) -> (r: Arc<AtomicBool>)
    ensures
        r == *flag,
{
    Arc::clone(flag)
}

/// Hands out task ids and holds the cancellation flag that the workers of a batch
/// read.
pub struct TaskManager {
    cancel_flag: Arc<AtomicBool>,
    next_id: u64,
}

impl TaskManager {
    /// The id that the next call of `next_task_id` hands out.
    pub closed spec fn next_id(&self) -> u64 {
        self.next_id
    }

    /// The shared cancellation flag.
    pub closed spec fn flag(&self) -> Arc<AtomicBool> {
        self.cancel_flag
    }

    /// Ids start at zero; the batch is not cancelled.
    pub fn new() -> (r: Self)
        ensures
            r.next_id() == 0,
    {
        TaskManager { cancel_flag: Arc::new(AtomicBool::new(false)), next_id: 0 }
    }

    /// The id that the next call of `next_task_id` hands out.
    pub fn peek_next_id(&self) -> (r: u64)
        ensures
            r == self.next_id(),
    {
        self.next_id
    }

    /// A new task id: each call hands out the next integer, so no id is handed out
    /// twice.
    pub fn next_task_id(&mut self) -> (r: u64)
        requires
            old(self).next_id() < u64::MAX,
        ensures
            r == old(self).next_id(),
            final(self).next_id() == old(self).next_id() + 1,
    {
        let id = self.next_id;
        self.next_id = self.next_id + 1;
        id
    }

    /// Asks the workers of the current batch to stop.
    pub fn cancel(&self) {
        self.cancel_flag.store(true, Ordering::Relaxed);
    }

    /// Whether the batch was cancelled. The flag is shared with the workers, so the
    /// answer is whatever was stored last, by any of them.
    pub fn is_cancelled(&self) -> bool {
        self.cancel_flag.load(Ordering::Relaxed)
    }

    /// Clears the flag before a new batch.
    pub fn reset(&self) {
        self.cancel_flag.store(false, Ordering::Relaxed);
    }

    /// A handle to the flag for a worker: the manager's own flag, not a copy, so that
    /// `cancel` and `reset` reach the workers.
    pub fn cancel_token(&self) -> (r: Arc<AtomicBool>)
        ensures
            r == self.flag(),
    {
        share_flag(&self.cancel_flag)
    }
}

impl Default for TaskManager {
    fn default() -> (r: Self)
        ensures
            r.next_id() == 0,
    {
        TaskManager::new()
    }
}

} // verus!
