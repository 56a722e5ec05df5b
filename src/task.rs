//! Tasks that are driven by polling.

use vstd::prelude::*;

verus! {

/// The state of a task: done with a result, or not yet.
#[derive(Clone, Copy, Debug, PartialEq, Eq, Structural)]
pub enum Poll<T> {
    Ready(T),
    Pending,
}

/// A unit of work that makes progress each time it is polled.
pub trait Task {
    type Output;

    fn poll(&mut self) -> Poll<Self::Output>;
}

/// Holds a task so that an executor can drive it.
pub struct TaskToFuture<T: Task> {
    task: T,
}

impl<T: Task> TaskToFuture<T> {
    pub closed spec fn spec_task(&self) -> T {
        self.task
    }

    pub fn new(task: T) -> (r: Self)
        ensures
            r.spec_task() == task,
    {
        Self { task }
    }

    /// The task held.
    pub fn task(&self) -> (r: &T)
        ensures
            *r == self.spec_task(),
    {
        &self.task
    }
}

} // verus!
