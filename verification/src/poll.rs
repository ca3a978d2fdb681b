//! The outcome of one step of a future.

use vstd::prelude::*;

verus! {

/// Whether a future has its result yet.
#[derive(PartialEq, Eq, Debug)]
pub enum Poll<T> {
    /// The result.
    Ready(T),
    /// The future has to be polled again once it is woken.
    Pending,
}

} // verus!
