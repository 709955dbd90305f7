//! Progress tracking: a counter of completed jobs, advanced once per job, with
//! a coalescing rule that rate-limits how often an external display is redrawn.

use vstd::prelude::*;

verus! {

/// Counter of completed jobs out of a fixed total. Workers advance it by the
/// number of jobs they have finished; it never counts a job twice, so once
/// every chunk is retired it reads exactly the total.
#[derive(Debug)]
pub struct ProgressTracker {
    done: usize,
    total: usize,
}

impl ProgressTracker {
    /// Jobs completed so far.
    pub closed spec fn spec_done(&self) -> int {
        self.done as int
    }

    /// Total number of jobs in the batch.
    pub closed spec fn spec_total(&self) -> int {
        self.total as int
    }

    /// The counter never runs past the total.
    pub open spec fn wf(&self) -> bool {
        self.spec_done() <= self.spec_total()
    }

    pub fn new(total: usize) -> (tracker: Self)
        ensures
            tracker.spec_done() == 0,
            tracker.spec_total() == total,
            tracker.wf(),
    {
        ProgressTracker { done: 0, total }
    }

    /// Records `n` more completed jobs.
    pub fn advance(&mut self, n: usize)
        requires
            old(self).wf(),
            old(self).spec_done() + n <= old(self).spec_total(),
        ensures
            final(self).spec_done() == old(self).spec_done() + n,
            final(self).spec_total() == old(self).spec_total(),
            final(self).wf(),
    {
        self.done = self.done + n;
    }

    /// The exact number of completed jobs, for the display and the summary.
    pub fn snapshot(&self) -> (done: usize)
        ensures
            done == self.spec_done(),
    {
        self.done
    }

    pub fn total(&self) -> (total: usize)
        ensures
            total == self.spec_total(),
    {
        self.total
    }

    /// Whether every job has been counted.
    pub fn is_complete(&self) -> (complete: bool)
        ensures
            complete == (self.spec_done() == self.spec_total()),
    {
        self.done == self.total
    }

    /// The coalescing rule for the external display: redraw only when the
    /// counter crosses a multiple of `every`, so a render does not run on
    /// every single completion. The rule never affects the counter itself.
    pub fn needs_refresh(&self, every: usize) -> (refresh: bool)
        requires
            1 <= every,
        ensures
            refresh == (self.spec_done() % (every as int) == 0),
    {
        self.done % every == 0
    }
}

} // verus!
