//! Bounded queues of commands and of their outcomes.

pub mod rw;

use vstd::prelude::*;

verus! {

/// The state of a queue operation: done with a result, or not yet.
#[derive(Clone, Copy, Debug, PartialEq, Eq, Structural)]
pub enum Poll<T> {
    Ready(T),
    Pending,
}

} // verus!
