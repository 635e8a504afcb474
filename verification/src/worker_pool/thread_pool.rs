//! Settings of a pool of worker threads and the ids of the operations run on it.
use vstd::prelude::*;

verus! {

/// The number of workers a pool may run at once: one when debugging, so that a debugger
/// sees a single worker, and `concurrency` otherwise.
pub fn pool_concurrency(concurrency: usize, debug: bool) -> (r: usize)
    ensures
        r == if debug { 1 } else { concurrency },
{
    if debug {
        1
    } else {
        concurrency
    }
}

/// The source of operation ids: each operation gets the next one, starting from one.
pub struct TaskIds {
    next: u32,
}

impl TaskIds {
    /// Ids start at one.
    pub fn new() -> (r: TaskIds)
        ensures
            r.next_id() == 1,
    {
        TaskIds { next: 1 }
    }

    /// The id the next operation gets.
    pub closed spec fn next_id(&self) -> u32 {
        self.next
    }

    /// Whether every id has been handed out, so that the next one would wrap around to
    /// zero; no id is handed out after that.
    pub fn exhausted(&self) -> (r: bool)
        ensures
            r == (self.next_id() == 0),
    {
        self.next == 0
    }

    /// The id of a new operation; ids count up and are never zero.
    pub fn next_task_id(&mut self) -> (r: u32)
        requires
            old(self).next_id() != 0,
        ensures
            r == old(self).next_id(),
            r != 0,
            final(self).next_id() == (if r == u32::MAX { 0 } else { r + 1 }),
    {
        let id = self.next;
        self.next = if id == u32::MAX { 0 } else { id + 1 };
        id
    }
}

} // verus!
