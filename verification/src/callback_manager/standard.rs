//! Callback managers on vectors.

use vstd::prelude::*;

use crate::callback::execute_callbacks;
use crate::callback_manager::CallbackManager;

verus! {

/// A callback manager that keeps its callbacks and its wakers in vectors.
pub struct VecBoxManager<F, W> {
    /// The callbacks that are registered.
    pub callbacks: Vec<F>,
    /// The wakers that are registered.
    pub wakers: Vec<W>,
}

impl<F, W> Default for VecBoxManager<F, W> {
    fn default() -> (manager: Self)
        ensures
            manager.callbacks@ == Seq::<F>::empty(),
            manager.wakers@ == Seq::<W>::empty(),
    {
        Self::new()
    }
}

impl<F, W> VecBoxManager<F, W> {
    /// A manager without callbacks and wakers.
    pub fn new() -> (manager: Self)
        ensures
            manager.callbacks@ == Seq::<F>::empty(),
            manager.wakers@ == Seq::<W>::empty(),
    {
        VecBoxManager { callbacks: Vec::new(), wakers: Vec::new() }
    }
}

impl<T, F: FnMut(&T) -> bool, W: Clone> CallbackManager<T, F, W> for VecBoxManager<F, W> {
    open spec fn callbacks(&self) -> Seq<F> {
        self.callbacks@
    }

    open spec fn wakers(&self) -> Seq<W> {
        self.wakers@
    }

    open spec fn registered(&self, f: F, after: &Self) -> bool {
        &&& after.callbacks@ == self.callbacks@.push(f)
        &&& after.wakers@ == self.wakers@
    }

    open spec fn waker_registered(&self, w: &W, after: &Self) -> bool {
        &&& after.callbacks@ == self.callbacks@
        &&& exists|waker: W| #[trigger]
            cloned(*w, waker) && after.wakers@ == self.wakers@.push(waker)
    }

    open spec fn executable(&self, value: &T) -> bool {
        crate::callback::callable(self.callbacks@, value)
    }

    open spec fn executed(&self, value: &T, after: &Self) -> bool {
        &&& after.wakers@ == Seq::<W>::empty()
        &&& exists|verdicts: Seq<bool>| #[trigger]
            crate::callback::called(self.callbacks@, value, verdicts) && crate::callback::retained(
                self.callbacks@,
                verdicts,
                after.callbacks@,
            ) && crate::callback::called_in_turn(self.callbacks@, verdicts)
    }

    proof fn registration_keeps_the_others(&self, f: F, after: &Self) {
    }

    proof fn waker_registration_keeps_the_others(&self, w: &W, after: &Self) {
    }

    proof fn callable_is_executable(&self, value: &T) {
        let held = CallbackManager::<T, F, W>::callbacks(self);
        assert forall|i: int| 0 <= i < self.callbacks@.len() implies call_requires(
            #[trigger] self.callbacks@[i],
            (value,),
        ) by {
            assert(call_requires(held[i], (value,)));
        }
    }

    proof fn execution_calls_everyone(&self, value: &T, after: &Self) -> (verdicts: Seq<bool>) {
        choose|verdicts: Seq<bool>| #[trigger]
            crate::callback::called(self.callbacks@, value, verdicts) && crate::callback::retained(
                self.callbacks@,
                verdicts,
                after.callbacks@,
            ) && crate::callback::called_in_turn(self.callbacks@, verdicts)
    }

    fn register(&mut self, f: F) {
        self.callbacks.push(f);
    }

    fn register_waker(&mut self, w: &W) {
        let waker = w.clone();
        assert(cloned(*w, waker));
        self.wakers.push(waker);
    }

    /// Has all wakers woken, first registered first, which leave; then calls all callbacks, of
    /// which those leave that return false.
    fn callback<'v, K: FnOnce(Vec<W>) -> &'v T>(&mut self, wake: K) where T: 'v {
        let mut wakers: Vec<W> = Vec::new();
        std::mem::swap(&mut wakers, &mut self.wakers);
        let value = wake(wakers);
        assert(call_ensures(wake, (wakers,), value));
        execute_callbacks(&mut self.callbacks, value);
    }
}

/// What is registered on a manager is what its vectors hold, in their order.
pub proof fn a_manager_holds_what_its_vectors_hold<T, F: FnMut(&T) -> bool, W: Clone>(
    manager: VecBoxManager<F, W>,
)
    ensures
        CallbackManager::<T, F, W>::callbacks(&manager) == manager.callbacks@,
        CallbackManager::<T, F, W>::wakers(&manager) == manager.wakers@,
{
}

/// A function that is registered comes last, and a waker too; everything else stays at its place.
pub proof fn registrations_come_last<T, F: FnMut(&T) -> bool, W: Clone>(
    before: VecBoxManager<F, W>,
    f: F,
    w: W,
    after: VecBoxManager<F, W>,
)
    ensures
        CallbackManager::<T, F, W>::registered(&before, f, &after) ==> {
            &&& after.callbacks@.len() == before.callbacks@.len() + 1
            &&& after.callbacks@.last() == f
            &&& after.callbacks@.drop_last() == before.callbacks@
            &&& after.wakers@ == before.wakers@
        },
        CallbackManager::<T, F, W>::waker_registered(&before, &w, &after) ==> {
            &&& after.wakers@.len() == before.wakers@.len() + 1
            &&& cloned(w, after.wakers@.last())
            &&& after.wakers@.drop_last() == before.wakers@
            &&& after.callbacks@ == before.callbacks@
        },
{
    if CallbackManager::<T, F, W>::registered(&before, f, &after) {
        assert(after.callbacks@.drop_last() =~= before.callbacks@);
    }
    if CallbackManager::<T, F, W>::waker_registered(&before, &w, &after) {
        assert(after.wakers@.drop_last() =~= before.wakers@);
    }
}

/// Callbacks alone, in a vector.
pub struct AsyncVecBoxManager<F>(pub Vec<F>);

impl<F> AsyncVecBoxManager<F> {
    /// No callbacks.
    pub fn new() -> (manager: Self)
        ensures
            manager.0@ == Seq::<F>::empty(),
    {
        AsyncVecBoxManager(Vec::new())
    }
}

impl<F> Default for AsyncVecBoxManager<F> {
    fn default() -> (manager: Self)
        ensures
            manager.0@ == Seq::<F>::empty(),
    {
        Self::new()
    }
}

} // verus!
