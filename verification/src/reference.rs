//! Progress of the high-precision reference orbit.
//!
//! The orbit itself (an arbitrary-precision complex number and the
//! floating-point copies of each iterate) is kept by the caller; this module
//! keeps its iteration counts and decides when the orbit is complete.
use vstd::prelude::*;

verus! {

/// Iteration counts of a reference orbit that starts at `start_iteration`
/// and runs up to `maximum_iteration`.
pub struct OrbitProgress {
    pub start_iteration: usize,
    pub current_iteration: usize,
    pub maximum_iteration: usize,
}

impl OrbitProgress {
    /// The orbit never goes back before its start.
    pub open spec fn wf(&self) -> bool {
        self.start_iteration <= self.current_iteration
    }

    /// Number of iterates the orbit holds: the starting one and one per step.
    pub open spec fn stored_points(&self) -> int {
        self.current_iteration - self.start_iteration + 1
    }

    /// An orbit that starts at `current_iteration` and holds its first
    /// iterate.
    pub fn new(current_iteration: usize, maximum_iteration: usize) -> (progress: Self)
        ensures
            progress.wf(),
            progress.start_iteration == current_iteration,
            progress.current_iteration == current_iteration,
            progress.maximum_iteration == maximum_iteration,
            progress.stored_points() == 1,
    {
        OrbitProgress {
            start_iteration: current_iteration,
            current_iteration,
            maximum_iteration,
        }
    }

    /// Counts one more iteration of the orbit, whose iterate is stored.
    pub fn step(&mut self)
        requires
            old(self).wf(),
            old(self).current_iteration < usize::MAX,
        ensures
            final(self).wf(),
            final(self).current_iteration == old(self).current_iteration + 1,
            final(self).start_iteration == old(self).start_iteration,
            final(self).maximum_iteration == old(self).maximum_iteration,
            final(self).stored_points() == old(self).stored_points() + 1,
    {
        self.current_iteration = self.current_iteration + 1;
    }

    /// Whether a run takes another step: it does while the current
    /// iteration has not passed the maximum.
    pub fn continues(&self) -> (more: bool)
        ensures
            more == (self.current_iteration <= self.maximum_iteration),
    {
        self.current_iteration <= self.maximum_iteration
    }

    /// The outcome of a run: whether the orbit stopped exactly at the
    /// maximum iteration.
    pub fn reached_maximum(&self) -> (reached: bool)
        ensures
            reached == (self.current_iteration == self.maximum_iteration),
    {
        self.current_iteration == self.maximum_iteration
    }
}

/// A run that takes one step at a time from at most the maximum iteration
/// and stops only when `continues` turns false ends one past the maximum,
/// and so reports that it did not reach it: only a run cut short by an
/// escaping iterate at exactly the maximum reports success.
pub proof fn lemma_run_without_escape_overshoots(progress: OrbitProgress)
    requires
        progress.wf(),
        progress.current_iteration <= progress.maximum_iteration + 1,
        !(progress.current_iteration <= progress.maximum_iteration),
    ensures
        progress.current_iteration == progress.maximum_iteration + 1,
        progress.current_iteration != progress.maximum_iteration,
{
}

} // verus!
