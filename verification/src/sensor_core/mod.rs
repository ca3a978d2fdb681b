//! Sensor cores: the state that writers and observers of one sensor share.

use vstd::prelude::*;

use crate::version::Version;

pub mod cells;
pub mod external;
pub mod in_house;
pub mod no_alloc;
pub mod shared;
pub mod shared_core;
pub mod standard;

verus! {

/// What writers and observers need of a core that holds a `T`.
pub trait SensorCore<T>: Sized {
    /// What wakes a future that waits in the core.
    type Waker;

    /// Shared access to the value.
    type ReadGuard;

    /// Exclusive access to the value.
    type WriteGuard;

    /// The whole state of a core, as its operations change it.
    type Model;

    /// The state of the core.
    spec fn model(&self) -> Self::Model;

    /// The state of a fresh core that holds `value`.
    spec fn fresh(value: T) -> Self::Model;

    /// The state with one more writer.
    spec fn registered(model: Self::Model) -> Self::Model;

    /// The state with one writer less.
    spec fn deregistered(model: Self::Model) -> Self::Model;

    /// The state after an update.
    spec fn updated(model: Self::Model) -> Self::Model;

    /// The state with one more reader let in.
    spec fn reading(model: Self::Model) -> Self::Model;

    /// The state with a writer let in.
    spec fn written(model: Self::Model) -> Self::Model;

    /// The state after an active writer has finished and left `value`, with or without an update.
    spec fn modified(model: Self::Model, value: T, changed: bool) -> Self::Model;

    /// Whether the core is in a state that its operations keep.
    spec fn wf(&self) -> bool;

    /// The current version.
    spec fn current(&self) -> Version;

    /// The number of registered writers.
    spec fn writers(&self) -> nat;

    /// The current value.
    spec fn value(&self) -> T;

    /// Whether a reader is let in at once.
    spec fn can_read(&self) -> bool;

    /// Whether a writer is let in at once.
    spec fn can_write(&self) -> bool;

    /// Whether a writer is active.
    spec fn writing(&self) -> bool;

    /// Who is woken by an update, in order.
    spec fn update_wakes(&self) -> Seq<Self::Waker>;

    /// Who is woken when a writer is deregistered, in order.
    spec fn deregister_wakes(&self) -> Seq<Self::Waker>;

    /// Who is woken when an active writer has finished, with or without an update.
    spec fn modify_wakes(&self, changed: bool) -> Seq<Self::Waker>;

    /// A core with one registered writer that holds `value`.
    fn with_value(value: T) -> (core: Self)
        ensures
            core.wf(),
            core.model() == Self::fresh(value),
            core.current() == Version(0),
            core.writers() == 1,
            core.value() == value,
            core.can_read(),
            core.can_write(),
            core.update_wakes() == Seq::<Self::Waker>::empty(),
    ;

    /// Counts one more writer.
    fn register_writer(&mut self)
        requires
            old(self).wf(),
            old(self).writers() < usize::MAX,
        ensures
            final(self).wf(),
            final(self).model() == Self::registered(old(self).model()),
            final(self).writers() == old(self).writers() + 1,
            final(self).current() == old(self).current(),
            final(self).value() == old(self).value(),
            final(self).can_read() == old(self).can_read(),
            final(self).can_write() == old(self).can_write(),
            final(self).writing() == old(self).writing(),
    ;

    /// Counts one writer less. The last one closes the sensor, and the wakers of those that this
    /// concerns are handed out.
    fn deregister_writer(&mut self) -> (woken: Vec<Self::Waker>)
        requires
            old(self).wf(),
            old(self).writers() > 0,
        ensures
            final(self).wf(),
            final(self).model() == Self::deregistered(old(self).model()),
            final(self).writers() == old(self).writers() - 1,
            final(self).current() == if old(self).writers() == 1 {
                old(self).current().closing()
            } else {
                old(self).current()
            },
            final(self).value() == old(self).value(),
            final(self).writing() == old(self).writing(),
            woken@ == old(self).deregister_wakes(),
            old(self).writers() > 1 ==> woken@ == Seq::<Self::Waker>::empty(),
            old(self).writers() == 1 ==> woken@ == old(self).update_wakes(),
    ;

    /// The current version.
    fn version(&self) -> (version: Version)
        ensures
            version == self.current(),
    ;

    /// Counts an update, and hands out the wakers of those that it concerns.
    fn mark_unseen(&mut self) -> (woken: Vec<Self::Waker>)
        requires
            old(self).wf(),
        ensures
            final(self).wf(),
            final(self).model() == Self::updated(old(self).model()),
            final(self).current() == old(self).current().next(),
            final(self).writers() == old(self).writers(),
            final(self).value() == old(self).value(),
            final(self).writing() == old(self).writing(),
            woken@ == old(self).update_wakes(),
    ;

    /// Lets a reader in, if that can be done at once.
    fn try_read(&mut self) -> (guard: Option<Self::ReadGuard>)
        requires
            old(self).wf(),
        ensures
            final(self).wf(),
            guard is Some <==> old(self).can_read(),
            guard is Some ==> final(self).model() == Self::reading(old(self).model()),
            guard is Some ==> !final(self).can_write(),
            guard is None ==> *final(self) == *old(self),
            final(self).current() == old(self).current(),
            final(self).writers() == old(self).writers(),
            final(self).value() == old(self).value(),
    ;

    /// Lets a writer in, if that can be done at once.
    fn try_write(&mut self) -> (guard: Option<Self::WriteGuard>)
        requires
            old(self).wf(),
        ensures
            final(self).wf(),
            guard is Some <==> old(self).can_write(),
            guard is Some ==> final(self).model() == Self::written(old(self).model()),
            guard is Some ==> final(self).writing() && !final(self).can_read()
                && !final(self).can_write(),
            guard is None ==> *final(self) == *old(self),
            final(self).current() == old(self).current(),
            final(self).writers() == old(self).writers(),
            final(self).value() == old(self).value(),
    ;

    /// Modifies the value with the access that `guard` gives, and gives the guard back. Where the
    /// modification says so it counts as an update. Returns what it said, and the wakers of those
    /// that the update concerns and that the lock goes to.
    fn modify<F: FnOnce(&mut T) -> bool>(
        &mut self,
        guard: Self::WriteGuard,
        f: F,
    ) -> (result: (bool, Vec<Self::Waker>))
        requires
            old(self).wf(),
            old(self).writing(),
            forall|value: &mut T|
                *value == old(self).value() ==> #[trigger] call_requires(f, (value,)),
        ensures
            final(self).wf(),
            exists|value: &mut T| #[trigger]
                call_ensures(f, (value,), result.0) && *value == old(self).value()
                    && *final(value) == final(self).value(),
            final(self).model() == Self::modified(
                old(self).model(),
                final(self).value(),
                result.0,
            ),
            final(self).current() == if result.0 {
                old(self).current().next()
            } else {
                old(self).current()
            },
            final(self).writers() == old(self).writers(),
            result.1@ == old(self).modify_wakes(result.0),
    ;
}

} // verus!
