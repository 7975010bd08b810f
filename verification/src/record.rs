//! The scheduling statistics record.

use vstd::prelude::*;

verus! {

/// Process scheduling statistics.
#[derive(Debug, PartialEq, Eq, Hash, Structural)]
pub struct Schedstat {
    /// Time spent on the cpu (in ns).
    pub sum_exec_runtime: usize,
    /// Time spent waiting on a runqueue (in ns).
    pub run_delay: usize,
    /// # of timeslices run on this cpu.
    pub pcount: usize,
}

impl Default for Schedstat {
    /// The record of a task that has not run yet: every counter is zero.
    fn default() -> (stats: Self)
        ensures
            stats == (Schedstat { sum_exec_runtime: 0, run_delay: 0, pcount: 0 }),
    {
        Schedstat { sum_exec_runtime: 0, run_delay: 0, pcount: 0 }
    }
}

} // verus!
