//! Sensor writers.

use vstd::prelude::*;

use std::marker::PhantomData;
use std::sync::Arc;

use crate::observer::{SensorObserve, SensorObserver};
use crate::sensor_core::SensorCore;

verus! {

/// A way of sharing a core, most likely behind a heap pointer.
pub trait ShareStrategy<'a>: Sized {
    /// The core that is shared.
    type Core;

    /// What an observer holds of the core.
    type Shared;

    /// The core.
    spec fn shared_core(self) -> Self::Core;

    /// The core that `shared` gives access to.
    spec fn core_of(shared: Self::Shared) -> Self::Core;

    /// Shares the core for the largest possible lifetime.
    fn share_data(self) -> (shared: Self::Shared)
        ensures
            Self::core_of(shared) == self.shared_core(),
    ;

    /// Borrows the core for the lifetime of what holds it.
    fn share_elided_ref(self) -> (core: &'a Self::Core)
        ensures
            *core == self.shared_core(),
    ;
}

/// Cores that can be shared.
pub trait Shareable {

}

impl<'a, C: Shareable> ShareStrategy<'a> for &'a C {
    type Core = C;

    type Shared = &'a C;

    open spec fn shared_core(self) -> C {
        *self
    }

    open spec fn core_of(shared: &'a C) -> C {
        *shared
    }

    fn share_data(self) -> (shared: &'a C) {
        self
    }

    fn share_elided_ref(self) -> (core: &'a C) {
        self
    }
}

impl<'a, C: Shareable> ShareStrategy<'a> for &'a Arc<C> {
    type Core = C;

    type Shared = Arc<C>;

    open spec fn shared_core(self) -> C {
        **self
    }

    open spec fn core_of(shared: Arc<C>) -> C {
        *shared
    }

    fn share_data(self) -> (shared: Arc<C>) {
        self.clone()
    }

    fn share_elided_ref(self) -> (core: &'a C) {
        &**self
    }
}

/// The generalized sensor writer.
///
/// A writer is one registration on a core. Its operations take the core, which is shared with
/// the other writers and the observers.
#[verifier::reject_recursive_types(T)]
#[verifier::reject_recursive_types(C)]
pub struct SensorWriter<T, C: SensorCore<T>> {
    _types: PhantomData<(T, C)>,
}

impl<T, C: SensorCore<T>> SensorWriter<T, C> {
    /// The writer that a fresh core has registered.
    pub(crate) fn from_core() -> Self {
        SensorWriter { _types: PhantomData }
    }

    /// Produces a sensor writer from an initial value, with the core that it writes to.
    pub fn from_value(value: T) -> (result: (Self, C))
        ensures
            result.1.wf(),
            result.1.model() == C::fresh(value),
            result.1.current() == crate::version::Version(0),
            result.1.writers() == 1,
            result.1.value() == value,
            result.1.can_read(),
            result.1.can_write(),
    {
        (Self::from_core(), C::with_value(value))
    }

    /// Registers another writer.
    pub fn clone(&self, core: &mut C) -> (writer: Self)
        requires
            old(core).wf(),
            old(core).writers() < usize::MAX,
        ensures
            final(core).wf(),
            final(core).model() == C::registered(old(core).model()),
            final(core).writers() == old(core).writers() + 1,
            final(core).current() == old(core).current(),
            final(core).value() == old(core).value(),
            final(core).can_read() == old(core).can_read(),
            final(core).can_write() == old(core).can_write(),
            final(core).writing() == old(core).writing(),
    {
        core.register_writer();
        Self::from_core()
    }

    /// Gives the registration up. The sensor closes with its last writer, and the wakers of those
    /// that wait for it are handed out.
    pub fn drop(self, core: &mut C) -> (woken: Vec<C::Waker>)
        requires
            old(core).wf(),
            old(core).writers() > 0,
        ensures
            final(core).wf(),
            final(core).model() == C::deregistered(old(core).model()),
            final(core).writers() == old(core).writers() - 1,
            final(core).current() == if old(core).writers() == 1 {
                old(core).current().closing()
            } else {
                old(core).current()
            },
            final(core).value() == old(core).value(),
            final(core).writing() == old(core).writing(),
            woken@ == old(core).deregister_wakes(),
            old(core).writers() > 1 ==> woken@ == Seq::<C::Waker>::empty(),
            old(core).writers() == 1 ==> woken@ == old(core).update_wakes(),
    {
        core.deregister_writer()
    }

    /// Mark the current sensor value as unseen to all observers, and hand out the wakers of those
    /// that wait for it.
    pub fn mark_all_unseen(&self, core: &mut C) -> (woken: Vec<C::Waker>)
        requires
            old(core).wf(),
        ensures
            final(core).wf(),
            final(core).model() == C::updated(old(core).model()),
            final(core).current() == old(core).current().next(),
            final(core).writers() == old(core).writers(),
            final(core).value() == old(core).value(),
            final(core).writing() == old(core).writing(),
            woken@ == old(core).update_wakes(),
    {
        core.mark_unseen()
    }

    /// Spawn an observer that has seen the current value. By definition this observer's scope is
    /// limited by the borrow of the core that it is used with.
    pub fn spawn_referenced_observer(&self, core: &C) -> (observer: SensorObserver<T>)
        ensures
            observer.checkpoint() == core.current(),
    {
        SensorObserver::new(core.version())
    }

    /// Spawn an observer that has seen the current value.
    pub fn spawn_observer(&self, core: &C) -> (observer: SensorObserver<T>)
        ensures
            observer.checkpoint() == core.current(),
    {
        SensorObserver::new(core.version())
    }

    /// Attempts to instantaneously acquire a write lock to the underlying core's data.
    pub fn try_write(&self, core: &mut C) -> (guard: Option<C::WriteGuard>)
        requires
            old(core).wf(),
        ensures
            final(core).wf(),
            guard is Some <==> old(core).can_write(),
            guard is Some ==> final(core).model() == C::written(old(core).model()),
            guard is Some ==> final(core).writing() && !final(core).can_read()
                && !final(core).can_write(),
            guard is None ==> *final(core) == *old(core),
            final(core).current() == old(core).current(),
            final(core).writers() == old(core).writers(),
            final(core).value() == old(core).value(),
    {
        core.try_write()
    }

    /// Attempts to instantaneously acquire a read lock to the underlying core's data.
    pub fn try_read(&self, core: &mut C) -> (guard: Option<C::ReadGuard>)
        requires
            old(core).wf(),
        ensures
            final(core).wf(),
            guard is Some <==> old(core).can_read(),
            guard is Some ==> final(core).model() == C::reading(old(core).model()),
            guard is Some ==> !final(core).can_write(),
            guard is None ==> *final(core) == *old(core),
            final(core).current() == old(core).current(),
            final(core).writers() == old(core).writers(),
            final(core).value() == old(core).value(),
    {
        core.try_read()
    }

    /// Update the sensor value with the access that `guard` gives, and hand out the wakers of
    /// those that the update concerns.
    pub fn update(&self, core: &mut C, guard: C::WriteGuard, sample: T) -> (woken: Vec<C::Waker>)
        requires
            old(core).wf(),
            old(core).writing(),
        ensures
            final(core).wf(),
            final(core).value() == sample,
            final(core).model() == C::modified(old(core).model(), sample, true),
            final(core).current() == old(core).current().next(),
            final(core).writers() == old(core).writers(),
            woken@ == old(core).modify_wakes(true),
    {
        let replace = |value: &mut T| -> (changed: bool)
            ensures
                *final(value) == sample,
                changed,
            {
                *value = sample;
                true
            };
        self.modify_with(core, guard, replace).1
    }

    /// Modify the sensor value in place with the access that `guard` gives. Where the
    /// modification returns true it counts as an update. Returns what it returned, and the wakers
    /// of those that the update concerns and that the lock goes to.
    pub fn modify_with<F: FnOnce(&mut T) -> bool>(
        &self,
        core: &mut C,
        guard: C::WriteGuard,
        f: F,
    ) -> (result: (bool, Vec<C::Waker>))
        requires
            old(core).wf(),
            old(core).writing(),
            forall|value: &mut T| *value == old(core).value() ==> #[trigger] call_requires(
                f,
                (value,),
            ),
        ensures
            final(core).wf(),
            exists|value: &mut T| #[trigger]
                call_ensures(f, (value,), result.0) && *value == old(core).value()
                    && *final(value) == final(core).value(),
            final(core).model() == C::modified(
                old(core).model(),
                final(core).value(),
                result.0,
            ),
            final(core).current() == if result.0 {
                old(core).current().next()
            } else {
                old(core).current()
            },
            final(core).writers() == old(core).writers(),
            result.1@ == old(core).modify_wakes(result.0),
    {
        core.modify(guard, f)
    }
}

/// What shares a core gives access to that core and to no other, borrowed or owned.
pub proof fn sharing_keeps_the_core<'a, C: Shareable>(
    borrowed: &'a C,
    owned: &'a Arc<C>,
    shared: Arc<C>,
)
    ensures
        <&'a C as ShareStrategy<'a>>::shared_core(borrowed) == *borrowed,
        <&'a C as ShareStrategy<'a>>::core_of(borrowed) == *borrowed,
        <&'a Arc<C> as ShareStrategy<'a>>::shared_core(owned) == **owned,
        <&'a Arc<C> as ShareStrategy<'a>>::core_of(shared) == *shared,
{
}

} // verus!
