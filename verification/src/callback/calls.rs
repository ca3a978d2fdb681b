//! The account of the calls that an execution makes.

use vstd::prelude::*;

verus! {

/// The calls that an execution has made, with what they returned.
pub struct Calls<F> {
    made: Ghost<Seq<(F, bool)>>,
}

/// Whether an execution has ended that made exactly `calls`, in their order.
pub closed spec fn accounted<F>(calls: Seq<(F, bool)>) -> bool {
    exists|account: Calls<F>| #[trigger]
        call_ensures(Calls::<F>::sign, (&account,), ()) && account.made() == calls
}

impl<F> Calls<F> {
    /// The calls that have been made so far, in their order.
    pub closed spec fn made(&self) -> Seq<(F, bool)> {
        self.made@
    }

    /// The account of an execution that has called nothing yet.
    pub(crate) fn open() -> (calls: Self)
        ensures
            calls.made() == Seq::<(F, bool)>::empty(),
    {
        Calls { made: Ghost(Seq::empty()) }
    }

    /// Calls `f` with `value`.
    pub(crate) fn call<T>(&mut self, f: &mut F, value: &T) -> (verdict: bool) where
        F: FnMut(&T) -> bool,

        requires
            call_requires(*old(f), (value,)),
        ensures
            call_ensures(*old(f), (value,), verdict),
            *final(f) == *old(f),
            final(self).made() == old(self).made().push((*old(f), verdict)),
    {
        let verdict = f(value);
        self.made = Ghost(self.made@.push((*old(f), verdict)));
        verdict
    }

    fn sign(&self) {
    }

    /// Ends the execution with the calls that it has made.
    pub(crate) fn finish(self)
        ensures
            accounted(self.made()),
    {
        self.sign();
        assert(call_ensures(Calls::<F>::sign, (&self,), ()));
    }
}

} // verus!
