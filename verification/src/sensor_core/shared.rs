//! The standard asynchronous sensor core, with the writers and observers that hold it.
//!
//! The core is shared between threads: what its atomics, its lock and its event hold rests on
//! other threads. What is decided upon a version or a count that was read is stated exactly;
//! waiting itself, on the lock and on the event, is left to whoever runs the wait.

use vstd::prelude::*;

use std::marker::PhantomData;
use std::sync::atomic::{AtomicUsize, Ordering};
use std::sync::Arc;

use crate::observer::{SensorObserve, SensorObserver};
use crate::poll::Poll;
use crate::sensor_core::cells::{Account, Deed};
use crate::version::{last_writer, too_many_writers, SymResult, Version, VERSION_INIT};

pub use crate::sensor_core::shared_core::{Core, CoreHolder};

verus! {

/// Holders that a core can be moved into.
pub trait CoreOwner<T>: CoreHolder<T> {
    /// A holder of `core`.
    fn from_core(core: Core<T>) -> (holder: Self)
        ensures
            holder.held() == core,
    ;
}

/// A holder that has the core inside.
#[verifier::reject_recursive_types(T)]
pub struct Wrapper<T>(pub Core<T>);

/// A holder that borrows the core.
#[verifier::reject_recursive_types(T)]
pub struct RefWrapper<'a, T>(pub &'a Core<T>);

impl<'a, T> Clone for RefWrapper<'a, T> {
    fn clone(&self) -> (wrapper: Self)
        ensures
            wrapper == *self,
    {
        RefWrapper(self.0)
    }
}

impl<'a, T> Copy for RefWrapper<'a, T> {

}

impl<T> CoreHolder<T> for Wrapper<T> {
    open spec fn held(&self) -> Core<T> {
        self.0
    }

    open spec fn outlives_holder() -> bool {
        false
    }

    fn permanent() -> (permanent: bool) {
        false
    }

    fn borrow_core(&self) -> (core: &Core<T>) {
        &self.0
    }
}

impl<T> CoreOwner<T> for Wrapper<T> {
    fn from_core(core: Core<T>) -> (holder: Self) {
        Wrapper(core)
    }
}

impl<'a, T> CoreHolder<T> for RefWrapper<'a, T> {
    open spec fn held(&self) -> Core<T> {
        *self.0
    }

    open spec fn outlives_holder() -> bool {
        false
    }

    fn permanent() -> (permanent: bool) {
        false
    }

    fn borrow_core(&self) -> (core: &Core<T>) {
        self.0
    }
}

impl<T> CoreHolder<T> for Arc<Core<T>> {
    open spec fn held(&self) -> Core<T> {
        **self
    }

    open spec fn outlives_holder() -> bool {
        true
    }

    fn permanent() -> (permanent: bool) {
        true
    }

    fn borrow_core(&self) -> (core: &Core<T>) {
        &**self
    }
}

impl<T> CoreOwner<T> for Arc<Core<T>> {
    fn from_core(core: Core<T>) -> (holder: Self) {
        Arc::new(core)
    }
}

/// A writer of a core.
#[verifier::reject_recursive_types(T)]
#[verifier::reject_recursive_types(R)]
pub struct Writer<T, R: CoreHolder<T>> {
    core: R,
    _target: PhantomData<T>,
}

impl<T> Writer<T, Wrapper<T>> {
    /// A writer that has a core that holds `init` inside.
    pub fn new_const(init: T) -> (writer: Self)
        ensures
            writer.held().made_of(init),
    {
        Writer { core: Wrapper(Core::new(init)), _target: PhantomData }
    }

    /// An observer that borrows the core and has seen nothing of it.
    pub fn observe_ref_const(&self) -> (observer: Observer<T, RefWrapper<'_, T>>)
        ensures
            observer.held() == self.held(),
            observer.version() == Version(VERSION_INIT),
    {
        self.observe_ref()
    }

    /// A writer that borrows the core. It is not counted.
    pub fn clone_ref_const(&self) -> (writer: Writer<T, RefWrapper<'_, T>>)
        ensures
            writer.held() == self.held(),
    {
        self.clone_ref()
    }
}

impl<T, R: CoreOwner<T>> Writer<T, R> {
    /// A writer of a fresh core that holds `init`.
    pub fn new(init: T) -> (writer: Self)
        ensures
            writer.held().made_of(init),
    {
        Writer { core: R::from_core(Core::new(init)), _target: PhantomData }
    }
}

impl<T, R: CoreHolder<T>> Writer<T, R> {
    /// What the writer holds.
    pub closed spec fn holder(&self) -> R {
        self.core
    }

    /// The core that is written.
    pub open spec fn held(&self) -> Core<T> {
        self.holder().held()
    }

    /// The core that is written.
    pub fn borrow_core(&self) -> (core: &Core<T>)
        ensures
            *core == self.held(),
    {
        self.core.borrow_core()
    }

    /// A writer that borrows the core. It is not counted.
    pub fn clone_ref(&self) -> (writer: Writer<T, RefWrapper<'_, T>>)
        ensures
            writer.held() == self.held(),
    {
        Writer { core: RefWrapper(self.core.borrow_core()), _target: PhantomData }
    }

    /// An observer that borrows the core and has seen nothing of it.
    pub fn observe_ref(&self) -> (observer: Observer<T, RefWrapper<'_, T>>)
        ensures
            observer.held() == self.held(),
            observer.version() == Version(VERSION_INIT),
    {
        Observer {
            core: RefWrapper(self.core.borrow_core()),
            seen: SensorObserver::new(Version(VERSION_INIT)),
        }
    }

    /// Counts an update and notifies an observer, which passes the notification on.
    pub fn notify_all(&self)
        ensures
            self.held().version_bumped(),
            self.held().notification_sent(),
            crate::sensor_core::cells::accounted(seq![Deed::Updated, Deed::Notified]),
    {
        let mut account = Account::open();
        self.core.borrow_core().count_update(&mut account);
        assert(account.deeds() =~= seq![Deed::Updated, Deed::Notified]);
        account.finish();
    }

    /// A write guard, if nobody holds the lock.
    pub fn try_write(&self) -> (guard: Option<async_lock::RwLockWriteGuard<'_, T>>)
        ensures
            self.held().write_answered(guard),
    {
        self.core.borrow_core().try_write()
    }

    /// Modifies the value that a write guard gives access to. Where the modification returns true
    /// it counts as an update.
    pub fn modify<F: FnOnce(&mut T) -> bool>(&self, value: &mut T, f: F) -> (changed: bool)
        requires
            forall|v: &mut T| *v == *old(value) ==> #[trigger] call_requires(f, (v,)),
        ensures
            exists|v: &mut T| #[trigger]
                call_ensures(f, (v,), changed) && *v == *old(value) && *final(v) == *final(value),
            changed ==> self.held().version_bumped() && self.held().notification_sent(),
            changed ==> crate::sensor_core::cells::accounted(seq![Deed::Updated, Deed::Notified]),
            !changed ==> crate::sensor_core::cells::accounted(Seq::empty()),
    {
        let mut account = Account::open();
        let changed = self.modify_counted(value, f, &mut account);
        assert(account.deeds() =~= if changed {
            seq![Deed::Updated, Deed::Notified]
        } else {
            Seq::empty()
        });
        account.finish();
        changed
    }

    /// Modifies a value. Where the modification returns true it counts as an update, and otherwise
    /// nothing is done to the core.
    fn modify_counted<F: FnOnce(&mut T) -> bool>(
        &self,
        value: &mut T,
        f: F,
        account: &mut Account,
    ) -> (changed: bool)
        requires
            forall|v: &mut T| *v == *old(value) ==> #[trigger] call_requires(f, (v,)),
        ensures
            exists|v: &mut T| #[trigger]
                call_ensures(f, (v,), changed) && *v == *old(value) && *final(v) == *final(value),
            changed ==> self.held().version_bumped() && self.held().notification_sent(),
            final(account).deeds() == old(account).deeds() + if changed {
                seq![Deed::Updated, Deed::Notified]
            } else {
                Seq::empty()
            },
    {
        let changed = f(value);
        if changed {
            self.core.borrow_core().count_update(account);
        }
        assert(account.deeds() =~= old(account).deeds() + if changed {
            seq![Deed::Updated, Deed::Notified]
        } else {
            Seq::empty()
        });
        changed
    }

    /// Replaces the value that a write guard gives access to, which counts as an update.
    pub fn update(&self, value: &mut T, sample: T)
        ensures
            *final(value) == sample,
            self.held().version_bumped(),
            self.held().notification_sent(),
            crate::sensor_core::cells::accounted(seq![Deed::Updated, Deed::Notified]),
    {
        let replace = |v: &mut T| -> (changed: bool)
            ensures
                *final(v) == sample,
                changed,
            {
                *v = sample;
                true
            };
        let mut account = Account::open();
        let _ = self.modify_counted(value, replace, &mut account);
        assert(account.deeds() =~= seq![Deed::Updated, Deed::Notified]);
        account.finish();
    }

    /// Ends the writer. Where the core outlives it, the last writer closes the sensor. Tells
    /// whether this was the last writer.
    pub fn drop(self) -> (closed: bool)
        ensures
            !R::outlives_holder() ==> !closed,
            R::outlives_holder() ==> exists|previous: usize| #[trigger]
                self.held().writer_taken_off(previous) && closed
                    == crate::version::is_last_writer(previous),
            closed ==> self.held().closed_bit_added() && self.held().notification_sent(),
            !R::outlives_holder() ==> crate::sensor_core::cells::accounted(Seq::empty()),
            R::outlives_holder() && !closed ==> crate::sensor_core::cells::accounted(seq![Deed::WriterTakenOff]),
            closed ==> crate::sensor_core::cells::accounted(
                seq![Deed::WriterTakenOff, Deed::Closed, Deed::Notified],
            ),
    {
        let mut account = Account::open();
        if !R::permanent() {
            account.finish();
            return false;
        }
        let core = self.core.borrow_core();
        let previous: usize = core.take_writer_off::<R>(&mut account);
        assert(self.held().writer_taken_off(previous));
        let last = last_writer(previous);
        if last {
            core.close(previous, &mut account);
        }
        assert(account.deeds() =~= if last {
            seq![Deed::WriterTakenOff, Deed::Closed, Deed::Notified]
        } else {
            seq![Deed::WriterTakenOff]
        });
        account.finish();
        last
    }
}

impl<T, R: CoreHolder<T> + Clone> Writer<T, R> {
    /// An observer that shares the core and has seen nothing of it.
    pub fn observe(&self) -> (observer: Observer<T, R>)
        ensures
            cloned(self.holder(), observer.holder()),
            observer.version() == Version(VERSION_INIT),
    {
        Observer {
            core: self.core.clone(),
            seen: SensorObserver::new(Version(VERSION_INIT)),
        }
    }

    /// Another writer of the core. Writers are counted where the core outlives them, and there
    /// are none to be had once there are too many.
    pub fn clone(&self) -> (writer: Option<Self>)
        ensures
            !R::outlives_holder() ==> writer is Some,
            R::outlives_holder() ==> exists|previous: usize| #[trigger]
                self.held().writer_added(previous) && (writer is None
                    <==> crate::version::has_too_many_writers(previous)),
            writer matches Some(writer) ==> cloned(self.holder(), writer.holder()),
            !R::outlives_holder() ==> crate::sensor_core::cells::accounted(Seq::empty()),
            R::outlives_holder() ==> crate::sensor_core::cells::accounted(seq![Deed::WriterCounted]),
    {
        let mut account = Account::open();
        if R::permanent() {
            let writers: usize = self.core.borrow_core().count_writer::<R>(
                &mut account,
            );
            assert(self.held().writer_added(writers));
            assert(account.deeds() =~= seq![Deed::WriterCounted]);
            if too_many_writers(writers) {
                account.finish();
                return None;
            }
        }
        account.finish();
        Some(Writer { core: self.core.clone(), _target: PhantomData })
    }
}

/// An observer of a core.
#[verifier::reject_recursive_types(T)]
#[verifier::reject_recursive_types(R)]
pub struct Observer<T, R: CoreHolder<T>> {
    core: R,
    seen: SensorObserver<T>,
}

impl<T, R: CoreHolder<T> + Clone> Clone for Observer<T, R> {
    fn clone(&self) -> (observer: Self)
        ensures
            cloned(self.holder(), observer.holder()),
            observer.version() == self.version(),
    {
        Observer { core: self.core.clone(), seen: self.seen.clone() }
    }
}

impl<T, R: CoreHolder<T> + Copy> Copy for Observer<T, R> {

}

/// What came of a check during a wait for a condition.
#[derive(PartialEq, Eq, Structural)]
pub enum Checked {
    /// The sensor is closed. The condition was not tested.
    Closed,
    /// The condition holds.
    Holds,
    /// The condition does not hold.
    Fails,
}

impl<T, R: CoreHolder<T>> Observer<T, R> {
    /// What the observer holds.
    pub closed spec fn holder(&self) -> R {
        self.core
    }

    /// The core that is observed.
    pub open spec fn held(&self) -> Core<T> {
        self.holder().held()
    }

    /// The version that counts as seen.
    pub closed spec fn version(&self) -> Version {
        self.seen.version()
    }

    /// The core that is observed.
    pub fn borrow_core(&self) -> (core: &Core<T>)
        ensures
            *core == self.held(),
    {
        self.core.borrow_core()
    }

    /// A read guard, if no writer holds the lock or waits for it.
    pub fn try_read(&self) -> (guard: Option<async_lock::RwLockReadGuard<'_, T>>)
        ensures
            self.held().read_answered(guard),
    {
        self.core.borrow_core().try_read()
    }

    /// The core that is observed, apart from what has been seen of it, so that a guard of the core
    /// can be held while what has been seen changes.
    pub fn split(&mut self) -> (parts: (&Core<T>, &mut SensorObserver<T>))
        ensures
            *parts.0 == old(self).held(),
            parts.1.version() == old(self).version(),
            final(self).holder() == old(self).holder(),
            final(self).version() == final(parts.1).version(),
    {
        (self.core.borrow_core(), &mut self.seen)
    }

    /// Mark the current sensor data as seen.
    pub fn mark_seen(&mut self)
        ensures
            final(self).holder() == old(self).holder(),
            old(self).held().told(final(self).version()),
    {
        self.core.borrow_core().record(&mut self.seen);
    }

    /// Mark the current sensor data as unseen.
    pub fn mark_unseen(&mut self)
        ensures
            final(self).holder() == old(self).holder(),
            exists|latest: Version| #[trigger]
                old(self).held().told(latest) && final(self).version() == latest.previous(),
    {
        let latest = self.core.borrow_core().version();
        assert(old(self).held().told(latest));
        self.seen.mark_unseen(&latest);
    }

    /// Returns true if the sensor data has been marked as unseen.
    pub fn has_changed(&self) -> (changed: bool)
        ensures
            exists|latest: Version| #[trigger]
                self.held().told(latest) && changed == (latest != self.version()),
    {
        let latest = self.core.borrow_core().version();
        assert(self.held().told(latest));
        self.seen.has_changed(&latest)
    }

    /// Returns true if all upstream writers have been dropped and no more updates can occur.
    pub fn is_closed(&self) -> (closed: bool)
        ensures
            exists|latest: Version| #[trigger]
                self.held().told(latest) && closed == latest.is_closed(),
    {
        let latest = self.core.borrow_core().version();
        assert(self.held().told(latest));
        self.seen.is_closed(&latest)
    }

    /// Takes one step of a wait until the sensor value is updated: decides by the version that
    /// the core tells. On a pending result the event has to be listened to, and
    /// [`Observer::pass_on`] to be called when it has come.
    pub fn wait_changed_inner(&self) -> (outcome: Poll<SymResult<()>>)
        ensures
            exists|latest: Version| #[trigger]
                self.held().told(latest) && outcome == change(self.version(), latest),
    {
        let core = self.core.borrow_core();
        let outcome = core.wait_changed(&self.seen);
        proof {
            let latest = choose|latest: Version| #[trigger]
                core.told(latest) && outcome == change(self.seen.version(), latest);
            assert(self.held().told(latest));
        }
        outcome
    }

    /// Passes a notification on to the next listener.
    pub fn pass_on(&self)
        ensures
            self.held().notification_sent(),
            crate::sensor_core::cells::accounted(seq![Deed::Notified]),
    {
        self.core.borrow_core().notify_one();
    }

    /// Starts a wait for a condition that checks the current value first, with an error where the
    /// sensor is closed already.
    pub fn wait_for(&self) -> (wait: ConditionWait)
        ensures
            wait.next == ConditionStep::Record,
            exists|latest: Version| #[trigger]
                self.held().told(latest) && wait.res == if latest.is_closed() {
                    Err::<(), ()>(())
                } else {
                    Ok(())
                },
    {
        let res = if self.is_closed() {
            Err(())
        } else {
            Ok(())
        };
        ConditionWait { res, next: ConditionStep::Record }
    }

    /// Starts a wait for a condition that waits for an update first.
    pub fn wait_for_next(&self) -> (wait: ConditionWait)
        ensures
            wait.next == ConditionStep::WaitChanged,
            wait.res == Ok::<(), ()>(()),
    {
        ConditionWait { res: Ok(()), next: ConditionStep::WaitChanged }
    }
}

/// What a wait for a condition has to do next.
#[derive(Clone, Copy, PartialEq, Eq, Structural, Debug)]
pub enum ConditionStep {
    /// Record the current version as seen.
    Record,
    /// Read the value and check it.
    Check,
    /// Wait until the value is one that has not been seen.
    WaitChanged,
    /// Nothing: the wait has ended with the value that was checked last.
    Ended,
}

/// A wait until a condition holds of the value of a core, or the sensor is closed.
///
/// A value is checked only after the version has been recorded as seen; where the condition fails,
/// an update has to come before the next check.
pub struct ConditionWait {
    /// What the wait until the last change has come to.
    pub res: SymResult<()>,
    /// What has to be done next.
    pub next: ConditionStep,
}

impl ConditionWait {
    /// Records the current version of the core as seen.
    pub fn record<T>(&mut self, core: &Core<T>, seen: &mut SensorObserver<T>)
        requires
            old(self).next == ConditionStep::Record,
        ensures
            core.told(final(seen).version()),
            *final(self) == (ConditionWait { next: ConditionStep::Check, ..*old(self) }),
    {
        core.record(seen);
        self.next = ConditionStep::Check;
    }

    /// Checks a value that has been read. On a closed sensor the wait ends without a test of the
    /// condition.
    pub fn check<T, F: FnMut(&T) -> bool>(
        &mut self,
        value: &T,
        condition: &mut F,
    ) -> (checked: Checked)
        requires
            old(self).next == ConditionStep::Check,
            call_requires(*old(condition), (value,)),
        ensures
            checked is Closed <==> old(self).res is Err,
            checked is Holds ==> call_ensures(*old(condition), (value,), true),
            checked is Fails ==> call_ensures(*old(condition), (value,), false),
            final(self).res == old(self).res,
            final(self).next == if checked is Fails {
                ConditionStep::WaitChanged
            } else {
                ConditionStep::Ended
            },
            *final(condition) == *old(condition),
    {
        self.next = ConditionStep::Ended;
        if self.res.is_err() {
            return Checked::Closed;
        }
        if condition(value) {
            return Checked::Holds;
        }
        self.next = ConditionStep::WaitChanged;
        Checked::Fails
    }

    /// Takes one step of the wait for an update, and tells whether it has come, or the sensor has
    /// closed. If not, the event of the core has to be listened to, and [`Core::notify_one`] to be
    /// called when it has come, which passes the notification on.
    pub fn wait_changed<T>(&mut self, core: &Core<T>, seen: &SensorObserver<T>) -> (changed: bool)
        requires
            old(self).next == ConditionStep::WaitChanged,
        ensures
            exists|latest: Version| #[trigger]
                core.told(latest) && match change(seen.version(), latest) {
                    Poll::Ready(res) => changed && *final(self) == (ConditionWait {
                        res,
                        next: ConditionStep::Record,
                    }),
                    Poll::Pending => !changed && *final(self) == *old(self),
                },
    {
        match core.wait_changed(seen) {
            Poll::Ready(res) => {
                self.res = res;
                self.next = ConditionStep::Record;
                true
            },
            Poll::Pending => false,
        }
    }
}

/// What a wait until a change comes to at version `latest`, for one that has seen `seen`.
pub open spec fn change(seen: Version, latest: Version) -> Poll<SymResult<()>> {
    if latest.is_closed() {
        Poll::Ready(Err(()))
    } else if latest != seen {
        Poll::Ready(Ok(()))
    } else {
        Poll::Pending
    }
}

/// A wait that has recorded the version of an open sensor is pending until the next update or the
/// end, and then goes on: it neither goes round at an unchanged version nor misses an update.
pub proof fn recorded_waits_are_pending(recorded: Version, count: nat)
    requires
        !recorded.is_closed(),
        2 * count < crate::version::version_modulus(),
    ensures
        change(recorded, recorded) is Pending,
        count > 0 ==> change(recorded, recorded.after_updates(count)) == Poll::Ready(
            Ok::<(), ()>(()),
        ),
        change(recorded, recorded.after_updates(count).closing()) == Poll::Ready(Err::<(), ()>(())),
{
    crate::version::updates_keep_closed_bit(recorded, count);
    crate::version::closing_is_final(recorded.after_updates(count));
    if count > 0 {
        crate::version::missed_updates_are_visible(recorded, count);
    }
}

/// What a wait until a change comes to: an error at an odd version, a change at an even one other
/// than the one that was seen, and nothing yet otherwise.
pub proof fn a_wait_ends_at_another_version(seen: Version, latest: Version)
    ensures
        latest.0 % 2 == 1 ==> change(seen, latest) == Poll::Ready(Err::<(), ()>(())),
        latest.0 % 2 == 0 && latest.0 != seen.0 ==> change(seen, latest) == Poll::Ready(
            Ok::<(), ()>(()),
        ),
        latest.0 % 2 == 0 && latest.0 == seen.0 ==> change(seen, latest) is Pending,
{
}

/// What the operations of a core do to its counters: an update adds two to the version, a writer
/// counts for one, closing sets the lowest bit, and a fresh core has one writer and no updates.
pub proof fn operations_move_the_counters<T>(core: Core<T>, init: T, n: usize)
    ensures
        core.made_of(init) ==> call_ensures(AtomicUsize::new, (0usize,), core.version_cell())
            && call_ensures(AtomicUsize::new, (1usize,), core.writer_cell()) && call_ensures(
            async_lock::RwLock::<T>::new,
            (init,),
            core.value_lock(),
        ) && call_ensures(event_listener::Event::<()>::new, (), core.change_event()),
        core.told(Version(n)) ==> call_ensures(
            AtomicUsize::load,
            (&core.version_cell(), Ordering::Relaxed),
            n,
        ),
        core.version_bumped() ==> exists|previous: usize| #[trigger]
            call_ensures(
                AtomicUsize::fetch_add,
                (&core.version_cell(), 2usize, Ordering::Relaxed),
                previous,
            ),
        core.writer_added(n) ==> call_ensures(
            AtomicUsize::fetch_add,
            (&core.writer_cell(), 1usize, Ordering::Relaxed),
            n,
        ),
        core.writer_taken_off(n) ==> call_ensures(
            AtomicUsize::fetch_sub,
            (&core.writer_cell(), 1usize, Ordering::Relaxed),
            n,
        ),
        core.closed_bit_added() ==> exists|previous: usize| #[trigger]
            call_ensures(
                AtomicUsize::fetch_or,
                (&core.version_cell(), 1usize, Ordering::Relaxed),
                previous,
            ),
{
}

/// Writers are counted exactly where the core is shared, as whoever holds it inside or borrows it
/// does not keep it.
pub proof fn only_shared_cores_count_their_writers<'a, T>(
    wrapper: Wrapper<T>,
    borrowed: RefWrapper<'a, T>,
    shared: Arc<Core<T>>,
)
    ensures
        <Arc<Core<T>> as CoreHolder<T>>::outlives_holder(),
        !<Wrapper<T> as CoreHolder<T>>::outlives_holder(),
        !<RefWrapper<'a, T> as CoreHolder<T>>::outlives_holder(),
        wrapper.held() == wrapper.0,
        borrowed.held() == *borrowed.0,
        shared.held() == *shared,
{
}

/// A writer that goes closes the sensor exactly if it was counted and no other was left: it then
/// has set the closed bit and sent a notification. Otherwise it has done nothing to the version and
/// has notified nobody: all that is entered in its account is that it was taken off the count, and
/// not even that where it was not counted.
pub proof fn the_last_counted_writer_closes<T, R: CoreHolder<T>>(
    writer: Writer<T, R>,
    closed: bool,
)
    requires
        call_ensures(Writer::<T, R>::drop, (writer,), closed),
    ensures
        closed ==> R::outlives_holder() && writer.held().closed_bit_added()
            && writer.held().notification_sent() && exists|previous: usize| #[trigger]
            writer.held().writer_taken_off(previous) && previous - 1 == 0,
        !closed && R::outlives_holder() ==> exists|previous: usize| #[trigger]
            writer.held().writer_taken_off(previous) && previous - 1 != 0,
        closed ==> crate::sensor_core::cells::accounted(
            seq![Deed::WriterTakenOff, Deed::Closed, Deed::Notified],
        ),
        !closed && R::outlives_holder() ==> crate::sensor_core::cells::accounted(seq![Deed::WriterTakenOff]),
        !R::outlives_holder() ==> !closed && crate::sensor_core::cells::accounted(Seq::empty()),
{
}

/// What an observer says of the core, and what it marks as seen, goes by a version that the core has
/// told.
pub proof fn observers_go_by_what_the_core_tells<T, R: CoreHolder<T>>(
    observer: &Observer<T, R>,
    answer: bool,
    outcome: Poll<SymResult<()>>,
)
    ensures
        call_ensures(Observer::<T, R>::has_changed, (observer,), answer) ==> exists|latest: Version|
            #[trigger] observer.held().told(latest) && answer == (latest.0
                != observer.version().0),
        call_ensures(Observer::<T, R>::is_closed, (observer,), answer) ==> exists|latest: Version|
            #[trigger] observer.held().told(latest) && answer == (latest.0 % 2 == 1),
        call_ensures(Observer::<T, R>::wait_changed_inner, (observer,), outcome) ==> exists|
            latest: Version,
        |
            #[trigger] observer.held().told(latest) && outcome == (if latest.0 % 2 == 1 {
                Poll::Ready(Err(()))
            } else if latest.0 != observer.version().0 {
                Poll::Ready(Ok(()))
            } else {
                Poll::Pending
            }),
        forall|own: &mut Observer<T, R>|
            #[trigger] call_ensures(Observer::<T, R>::mark_seen, (own,), ())
                ==> (*own).held().told((*final(own)).version()) && (*final(own)).holder()
                == (*own).holder(),
        forall|own: &mut Observer<T, R>|
            #[trigger] call_ensures(Observer::<T, R>::mark_unseen, (own,), ()) ==> exists|
                latest: Version,
            |
                #[trigger] (*own).held().told(latest) && (*final(own)).version().0 as int == (
                latest.0 - 2) % (usize::MAX + 1),
{
    assert forall|version: Version|
        (#[trigger] version.previous()).0 as int == (version.0 - 2) % (usize::MAX + 1) by {
        crate::version::versions_count_in_twos(version);
    }
}

/// A wait for a condition ends with the value that was checked exactly if the sensor was closed or
/// the condition held, and has to wait for a change otherwise; the condition is tested only on an
/// open sensor.
pub proof fn checks_end_waits<T, F: FnMut(&T) -> bool>(value: &T, checked: Checked)
    ensures
        forall|wait: &mut ConditionWait, condition: &mut F|
            #[trigger] call_ensures(
                ConditionWait::check::<T, F>,
                (wait, value, condition),
                checked,
            ) ==> {
                &&& (*wait).res is Err ==> checked is Closed
                &&& (*wait).res is Ok ==> (checked is Holds && call_ensures(
                    *condition,
                    (value,),
                    true,
                )) || (checked is Fails && call_ensures(*condition, (value,), false))
                &&& checked is Fails <==> (*final(wait)).next == ConditionStep::WaitChanged
                &&& checked is Fails || (*final(wait)).next == ConditionStep::Ended
                &&& (*final(wait)).res == (*wait).res
            },
{
}

/// A modification that says so, and every replacement of the value, counts one update and sends one
/// notification; a modification that does not say so does nothing to the core.
pub proof fn only_changes_are_counted<T, R: CoreHolder<T>, F: FnOnce(&mut T) -> bool>(
    writer: &Writer<T, R>,
    f: F,
    sample: T,
    changed: bool,
)
    ensures
        forall|value: &mut T|
            #[trigger] call_ensures(Writer::<T, R>::modify::<F>, (writer, value, f), changed)
                ==> crate::sensor_core::cells::accounted(
                if changed {
                    seq![Deed::Updated, Deed::Notified]
                } else {
                    Seq::empty()
                },
            ) && (changed ==> writer.held().version_bumped() && writer.held().notification_sent()),
        forall|value: &mut T|
            #[trigger] call_ensures(Writer::<T, R>::update, (writer, value, sample), ())
                ==> *final(value) == sample && writer.held().version_bumped()
                && writer.held().notification_sent() && crate::sensor_core::cells::accounted(
                seq![Deed::Updated, Deed::Notified],
            ),
{
}

} // verus!
