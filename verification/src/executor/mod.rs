//! Tasks and the queue that an executor works through.
pub mod task;

use crate::executor::task::Task;
use vstd::prelude::*;

verus! {

/// The tasks that wait to be run.
pub struct Executor<'e> {
    jobs: Vec<&'e Task>,
}

impl<'e> Executor<'e> {
    /// The number of tasks that wait.
    pub closed spec fn waiting(&self) -> nat {
        self.jobs@.len()
    }

    /// An executor with nothing to run.
    pub fn new() -> (executor: Self)
        ensures
            executor.waiting() == 0,
    {
        Self { jobs: Vec::new() }
    }
}

impl<'e> Default for Executor<'e> {
    fn default() -> (executor: Self)
        ensures
            executor.waiting() == 0,
    {
        Self::new()
    }
}

} // verus!
