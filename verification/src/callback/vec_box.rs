//! A callback manager on vectors.

use vstd::prelude::*;

use crate::callback::{execute_callbacks, ExecManagerMut, ExecRegisterMut};

verus! {

/// A function that is registered as a callback.
pub struct Function<F>(pub F);

/// A callback manager that keeps its callbacks and its wakers in vectors.
pub struct VecBoxManager<F, W> {
    /// The callbacks that are registered.
    pub callbacks: Vec<F>,
    /// The wakers that are registered.
    pub wakers: Vec<W>,
}

impl<F, W> Default for VecBoxManager<F, W> {
    fn default() -> (manager: Self)
        ensures
            manager.callbacks@ == Seq::<F>::empty(),
            manager.wakers@ == Seq::<W>::empty(),
    {
        Self::new()
    }
}

impl<F, W> VecBoxManager<F, W> {
    /// A manager without callbacks and wakers.
    pub fn new() -> (manager: Self)
        ensures
            manager.callbacks@ == Seq::<F>::empty(),
            manager.wakers@ == Seq::<W>::empty(),
    {
        VecBoxManager { callbacks: Vec::new(), wakers: Vec::new() }
    }
}

impl<T, F: FnMut(&T) -> bool, W> ExecManagerMut<T, W> for VecBoxManager<F, W> {
    open spec fn wakers(&self) -> Seq<W> {
        self.wakers@
    }

    open spec fn executable(&self, value: &T) -> bool {
        crate::callback::callable(self.callbacks@, value)
    }

    open spec fn executed(&self, value: &T, after: &Self) -> bool {
        &&& after.wakers@ == Seq::<W>::empty()
        &&& exists|verdicts: Seq<bool>| #[trigger]
            crate::callback::called(self.callbacks@, value, verdicts) && crate::callback::retained(
                self.callbacks@,
                verdicts,
                after.callbacks@,
            ) && crate::callback::called_in_turn(self.callbacks@, verdicts)
    }

    /// Has all wakers woken, first registered first, which leave; then calls all callbacks, of
    /// which those leave that return false.
    fn execute<'v, K: FnOnce(Vec<W>) -> &'v T>(&mut self, wake: K) where T: 'v {
        let mut wakers: Vec<W> = Vec::new();
        std::mem::swap(&mut wakers, &mut self.wakers);
        let value = wake(wakers);
        assert(call_ensures(wake, (wakers,), value));
        execute_callbacks(&mut self.callbacks, value);
    }
}

impl<F, W> ExecRegisterMut<Function<F>> for VecBoxManager<F, W> {
    open spec fn registered(&self, x: Function<F>, after: &Self) -> bool {
        &&& after.callbacks@ == self.callbacks@.push(x.0)
        &&& after.wakers@ == self.wakers@
    }

    fn register(&mut self, x: Function<F>) {
        self.callbacks.push(x.0);
    }
}

impl<F, W: Clone> ExecRegisterMut<&W> for VecBoxManager<F, W> {
    open spec fn registered(&self, x: &W, after: &Self) -> bool {
        &&& after.callbacks@ == self.callbacks@
        &&& exists|waker: W| #[trigger]
            cloned(*x, waker) && after.wakers@ == self.wakers@.push(waker)
    }

    fn register(&mut self, x: &W) {
        let waker = x.clone();
        assert(cloned(*x, waker));
        self.wakers.push(waker);
    }
}

/// Over any number of executions with nothing registered meanwhile, each callback that is still
/// held is called by every execution and returns a verdict; those that are held after a number of
/// executions are those that have returned true every time, and one that has returned false is
/// never called again. Wakers are woken by the first execution only.
pub proof fn executions_follow_the_verdicts<T, F: FnMut(&T) -> bool, W>(
    managers: Seq<VecBoxManager<F, W>>,
    values: Seq<T>,
) -> (verdicts: Seq<Seq<bool>>)
    requires
        managers.len() == values.len() + 1,
        forall|k: int|
            0 <= k < values.len() ==> ExecManagerMut::<T, W>::executed(
                &#[trigger] managers[k],
                &values[k],
                &managers[k + 1],
            ),
    ensures
        ({
            let callbacks = managers.map_values(|manager: VecBoxManager<F, W>| manager.callbacks@);
            let count = callbacks[0].len();
            &&& crate::callback::executions(callbacks, values, verdicts)
            &&& forall|step: nat, first: int|
                step <= values.len() && 0 <= first < count ==> (
                #[trigger] crate::callback::origins(count, verdicts, step).contains(first)
                    <==> forall|k: nat|
                    k < step ==> #[trigger] crate::callback::returned(
                        count,
                        verdicts,
                        k,
                        first,
                        true,
                    ))
            &&& forall|step: nat, first: int, k: nat|
                #![trigger crate::callback::origins(count, verdicts, step).contains(first), crate::callback::returned(count, verdicts, k, first, false)]
                k < step <= values.len() && crate::callback::returned(
                    count,
                    verdicts,
                    k,
                    first,
                    false,
                ) ==> !crate::callback::origins(count, verdicts, step).contains(first)
            &&& forall|k: int|
                0 < k < managers.len() ==> (#[trigger] managers[k]).wakers@ == Seq::<W>::empty()
        }),
{
    let callbacks = managers.map_values(|manager: VecBoxManager<F, W>| manager.callbacks@);
    let count = callbacks[0].len();
    let verdicts = Seq::new(
        values.len(),
        |k: int|
            choose|told: Seq<bool>| #[trigger]
                crate::callback::called(callbacks[k], &values[k], told)
                    && crate::callback::retained(callbacks[k], told, callbacks[k + 1]),
    );
    assert forall|k: int| 0 <= k < values.len() implies crate::callback::called(
        callbacks[k],
        &values[k],
        #[trigger] verdicts[k],
    ) && crate::callback::retained(callbacks[k], verdicts[k], callbacks[k + 1]) by {
        assert(ExecManagerMut::<T, W>::executed(&managers[k], &values[k], &managers[k + 1]));
    }
    assert forall|step: nat, first: int| step <= values.len() && 0 <= first < count implies (
    #[trigger] crate::callback::origins(count, verdicts, step).contains(first) <==> forall|k: nat|
        k < step ==> #[trigger] crate::callback::returned(count, verdicts, k, first, true)) by {
        crate::callback::callbacks_are_called_until_they_return_false(
            callbacks,
            values,
            verdicts,
            step,
        );
    }
    assert forall|step: nat, first: int, k: nat|
        #![trigger crate::callback::origins(count, verdicts, step).contains(first), crate::callback::returned(count, verdicts, k, first, false)]
        k < step <= values.len() && crate::callback::returned(
            count,
            verdicts,
            k,
            first,
            false,
        ) implies !crate::callback::origins(count, verdicts, step).contains(first) by {
        crate::callback::callbacks_are_called_until_they_return_false(
            callbacks,
            values,
            verdicts,
            step,
        );
    }
    assert forall|k: int| 0 < k < managers.len() implies (#[trigger] managers[k]).wakers@
        == Seq::<W>::empty() by {
        assert(ExecManagerMut::<T, W>::executed(&managers[k - 1], &values[k - 1], &managers[k]));
    }
    verdicts
}

/// A function that is registered comes last, and a waker too; everything else stays at its place.
pub proof fn registrations_come_last<F, W: Clone>(
    before: VecBoxManager<F, W>,
    f: F,
    w: W,
    after: VecBoxManager<F, W>,
)
    ensures
        ExecRegisterMut::<Function<F>>::registered(&before, Function(f), &after) ==> {
            &&& after.callbacks@.len() == before.callbacks@.len() + 1
            &&& after.callbacks@.last() == f
            &&& after.callbacks@.drop_last() == before.callbacks@
            &&& after.wakers@ == before.wakers@
        },
        ExecRegisterMut::<&W>::registered(&before, &w, &after) ==> {
            &&& after.wakers@.len() == before.wakers@.len() + 1
            &&& cloned(w, after.wakers@.last())
            &&& after.wakers@.drop_last() == before.wakers@
            &&& after.callbacks@ == before.callbacks@
        },
{
    if ExecRegisterMut::<Function<F>>::registered(&before, Function(f), &after) {
        assert(after.callbacks@.drop_last() =~= before.callbacks@);
    }
    if ExecRegisterMut::<&W>::registered(&before, &w, &after) {
        assert(after.wakers@.drop_last() =~= before.wakers@);
    }
}

/// An execution wakes all wakers in their order, needs of the callbacks only that each can be
/// called, and calls each of them; those that return true stay, and no waker does.
pub proof fn an_execution_reaches_everything<T, F: FnMut(&T) -> bool, W>(
    before: VecBoxManager<F, W>,
    value: &T,
    after: VecBoxManager<F, W>,
) -> (verdicts: Seq<bool>)
    ensures
        ExecManagerMut::<T, W>::wakers(&before) == before.wakers@,
        ExecManagerMut::<T, W>::executable(&before, value) <==> forall|i: int|
            0 <= i < before.callbacks@.len() ==> call_requires(
                #[trigger] before.callbacks@[i],
                (value,),
            ),
        ExecManagerMut::<T, W>::executed(&before, value, &after) ==> {
            &&& after.wakers@.len() == 0
            &&& verdicts.len() == before.callbacks@.len()
            &&& forall|i: int|
                0 <= i < verdicts.len() ==> call_ensures(
                    before.callbacks@[i],
                    (value,),
                    #[trigger] verdicts[i],
                )
            &&& crate::callback::retained(before.callbacks@, verdicts, after.callbacks@)
            &&& crate::callback::called_in_turn(before.callbacks@, verdicts)
        },
{
    choose|verdicts: Seq<bool>| #[trigger]
        crate::callback::called(before.callbacks@, value, verdicts) && crate::callback::retained(
            before.callbacks@,
            verdicts,
            after.callbacks@,
        ) && crate::callback::called_in_turn(before.callbacks@, verdicts)
}

} // verus!
