//! Executors: what runs on an update of a sensor.

use vstd::prelude::*;

pub mod standard;

verus! {

/// An execution manager that only requires immutable access.
pub trait ExecManager<T> {
    /// Execute all executables registered on the executor.
    fn execute(&self, value: &T);
}

impl<T> ExecManager<T> for () {
    /// Nothing is registered, so nothing is executed.
    fn execute(&self, value: &T) {
    }
}

/// An executor that executables can be registered on, if a condition gives one.
pub trait ExecRegister<X>: Sized {
    /// Whether `after` is this executor with `x` registered.
    spec fn registered(&self, x: X, after: &Self) -> bool;

    /// Registers what `condition` gives, if anything, and tells whether it gave something.
    fn register<C: FnOnce() -> Option<X>>(&mut self, condition: C) -> (given: bool)
        requires
            call_requires(condition, ()),
        ensures
            exists|x: Option<X>| #[trigger]
                call_ensures(condition, (), x) && given == (x is Some) && match x {
                    Some(x) => old(self).registered(x, final(self)),
                    None => *final(self) == *old(self),
                },
    ;
}

} // verus!
