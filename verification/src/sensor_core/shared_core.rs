//! The standard asynchronous sensor core: a lock, a version with the event of its change, and a
//! count of writers.
//!
//! The core is shared between threads: what its counters, its lock and its event hold rests on
//! other threads.

use vstd::prelude::*;

use std::sync::atomic::{AtomicUsize, Ordering};

use crate::observer::{SensorObserve, SensorObserver};
use crate::poll::Poll;
use crate::sensor_core::cells::{Account, ChangeEvent, Deed, SharedVersion, WriterCount};
use crate::sensor_core::external::{notify_additional, try_read_lock, try_write_lock};
use crate::version::{SymResult, Version, CLOSED_BIT, VERSION_BUMP};
use crate::waiting::SensorObserveAsync;

verus! {

/// The version of a core, and the event of its change.
struct VersionData {
    v: SharedVersion,
    updated: ChangeEvent,
}

/// Standard asynchronous sensor core.
#[verifier::reject_recursive_types(T)]
pub struct Core<T> {
    lock: async_lock::RwLock<T>,
    writers: WriterCount,
    version_data: VersionData,
}

impl<T> Core<T> {
    /// The lock of the value.
    pub closed spec fn value_lock(&self) -> async_lock::RwLock<T> {
        self.lock
    }

    /// The event of a change.
    pub closed spec fn change_event(&self) -> event_listener::Event {
        self.version_data.updated.event()
    }

    /// The counter of the writers.
    pub closed spec fn writer_cell(&self) -> AtomicUsize {
        self.writers.cell()
    }

    /// The counter of the updates.
    pub closed spec fn version_cell(&self) -> AtomicUsize {
        self.version_data.v.cell()
    }

    /// Whether the core was made with a lock around `init`, one writer, a version of zero and an
    /// event that nobody listens to.
    pub open spec fn made_of(&self, init: T) -> bool {
        &&& call_ensures(async_lock::RwLock::<T>::new, (init,), self.value_lock())
        &&& call_ensures(AtomicUsize::new, (1,), self.writer_cell())
        &&& call_ensures(AtomicUsize::new, (0,), self.version_cell())
        &&& call_ensures(event_listener::Event::<()>::new, (), self.change_event())
    }

    /// Whether `version` is what a load of the core's version gave.
    pub open spec fn told(&self, version: Version) -> bool {
        call_ensures(AtomicUsize::load, (&self.version_cell(), Ordering::Relaxed), version.0)
    }

    /// Whether `guard` is what the core's lock gave to somebody who tried to read.
    pub closed spec fn read_answered(
        &self,
        guard: Option<async_lock::RwLockReadGuard<'_, T>>,
    ) -> bool {
        call_ensures(try_read_lock::<T>, (&self.value_lock(),), guard)
    }

    /// Whether `guard` is what the core's lock gave to somebody who tried to write.
    pub closed spec fn write_answered(
        &self,
        guard: Option<async_lock::RwLockWriteGuard<'_, T>>,
    ) -> bool {
        call_ensures(try_write_lock::<T>, (&self.value_lock(),), guard)
    }

    /// Whether an update was added to the core's version.
    pub open spec fn version_bumped(&self) -> bool {
        exists|previous: usize| #[trigger]
            call_ensures(
                AtomicUsize::fetch_add,
                (&self.version_cell(), VERSION_BUMP, Ordering::Relaxed),
                previous,
            )
    }

    /// Whether a writer was added to the core's count when the count was `previous`.
    pub open spec fn writer_added(&self, previous: usize) -> bool {
        call_ensures(AtomicUsize::fetch_add, (&self.writer_cell(), 1, Ordering::Relaxed), previous)
    }

    /// Whether a writer was taken off the core's count when the count was `previous`.
    pub open spec fn writer_taken_off(&self, previous: usize) -> bool {
        call_ensures(AtomicUsize::fetch_sub, (&self.writer_cell(), 1, Ordering::Relaxed), previous)
    }

    /// Whether the closed bit was set in the core's version.
    pub open spec fn closed_bit_added(&self) -> bool {
        exists|previous: usize| #[trigger]
            call_ensures(
                AtomicUsize::fetch_or,
                (&self.version_cell(), CLOSED_BIT, Ordering::Relaxed),
                previous,
            )
    }

    /// Whether one more listener of the core's event was asked to be notified.
    pub closed spec fn notification_sent(&self) -> bool {
        exists|notified: usize| #[trigger]
            call_ensures(notify_additional, (&self.change_event(), 1), notified)
    }

    /// A core that holds `init`, at version zero and with one writer.
    pub(crate) fn new(init: T) -> (core: Self)
        ensures
            core.made_of(init),
    {
        Core {
            lock: async_lock::RwLock::new(init),
            writers: WriterCount::new(1),
            version_data: VersionData {
                v: SharedVersion::new(),
                updated: ChangeEvent::new(),
            },
        }
    }

    /// The lock of the value, to wait for.
    pub fn lock(&self) -> (lock: &async_lock::RwLock<T>)
        ensures
            *lock == self.value_lock(),
    {
        &self.lock
    }

    /// The event of a change, to listen to.
    pub fn updated(&self) -> (event: &event_listener::Event)
        ensures
            *event == self.change_event(),
    {
        self.version_data.updated.listened()
    }

    /// The current version.
    pub(crate) fn version(&self) -> (version: Version)
        ensures
            self.told(version),
    {
        Version(self.version_data.v.load(Ordering::Relaxed))
    }

    /// A read guard, if no writer holds the lock or waits for it.
    pub(crate) fn try_read(&self) -> (guard: Option<async_lock::RwLockReadGuard<'_, T>>)
        ensures
            self.read_answered(guard),
    {
        try_read_lock(&self.lock)
    }

    /// A write guard, if nobody holds the lock.
    pub(crate) fn try_write(&self) -> (guard: Option<async_lock::RwLockWriteGuard<'_, T>>)
        ensures
            self.write_answered(guard),
    {
        try_write_lock(&self.lock)
    }

    /// Marks the current value as seen by `seen`.
    pub fn record(&self, seen: &mut SensorObserver<T>)
        ensures
            self.told(final(seen).version()),
    {
        let latest = self.version();
        seen.mark_seen(&latest);
    }

    /// Takes one step of a wait until the sensor value is one that `seen` has not seen: decides
    /// by the version that the core tells. On a pending result the event has to be listened to,
    /// and [`Core::notify_one`] to be called when it has come, which passes the notification on.
    pub fn wait_changed(&self, seen: &SensorObserver<T>) -> (outcome: Poll<SymResult<()>>)
        ensures
            exists|latest: Version| #[trigger]
                self.told(latest) && outcome == crate::sensor_core::shared::change(
                    seen.version(),
                    latest,
                ),
    {
        let latest = self.version();
        assert(self.told(latest));
        match seen.wait_until_changed(&latest) {
            Poll::Pending => Poll::Pending,
            Poll::Ready(Ok(_)) => Poll::Ready(Ok(())),
            Poll::Ready(Err(_)) => Poll::Ready(Err(())),
        }
    }

    /// Counts an update and notifies an observer, which passes the notification on.
    pub(crate) fn count_update(&self, account: &mut Account)
        ensures
            self.version_bumped(),
            self.notification_sent(),
            final(account).deeds() == old(account).deeds() + seq![Deed::Updated, Deed::Notified],
    {
        self.version_data.v.add_update(Ordering::Relaxed, account);
        self.version_data.updated.notify(account);
        assert(account.deeds() =~= old(account).deeds() + seq![Deed::Updated, Deed::Notified]);
    }

    /// Counts one more writer that holds the core by an `R`, and tells how many there were. Only
    /// writers that the core outlives are counted.
    pub(crate) fn count_writer<R: CoreHolder<T>>(&self, account: &mut Account) -> (previous: usize)
        requires
            R::outlives_holder(),
        ensures
            self.writer_added(previous),
            final(account).deeds() == old(account).deeds().push(Deed::WriterCounted),
    {
        self.writers.count_one(account)
    }

    /// Counts one writer less that held the core by an `R`, and tells how many there were. Only
    /// writers that the core outlives are counted.
    pub(crate) fn take_writer_off<R: CoreHolder<T>>(&self, account: &mut Account) -> (previous:
        usize)
        requires
            R::outlives_holder(),
        ensures
            self.writer_taken_off(previous),
            final(account).deeds() == old(account).deeds().push(Deed::WriterTakenOff),
    {
        self.writers.take_one_off(account)
    }

    /// Closes the sensor and notifies an observer, which passes the notification on. This is for
    /// the writer that was taken off the count as the last one, and for nobody else.
    pub(crate) fn close(&self, previous: usize, account: &mut Account)
        requires
            self.writer_taken_off(previous),
            previous == 1,
        ensures
            self.closed_bit_added(),
            self.notification_sent(),
            final(account).deeds() == old(account).deeds() + seq![Deed::Closed, Deed::Notified],
    {
        self.version_data.v.close(&self.writers, previous, Ordering::Relaxed, account);
        self.version_data.updated.notify(account);
        assert(account.deeds() =~= old(account).deeds() + seq![Deed::Closed, Deed::Notified]);
    }

    /// Notifies one more listener of a change.
    pub fn notify_one(&self)
        ensures
            self.notification_sent(),
            crate::sensor_core::cells::accounted(seq![Deed::Notified]),
    {
        let mut account = Account::open();
        self.version_data.updated.notify(&mut account);
        assert(account.deeds() =~= seq![Deed::Notified]);
        account.finish();
    }
}

/// Something that holds a core, or a reference to one.
pub trait CoreHolder<T>: Sized {
    /// The core that is held.
    spec fn held(&self) -> Core<T>;

    /// Whether the core outlives this holder.
    spec fn outlives_holder() -> bool;

    /// Whether the core outlives this holder, so that its writers are counted.
    fn permanent() -> (permanent: bool)
        ensures
            permanent == Self::outlives_holder(),
    ;

    /// The core that is held.
    fn borrow_core(&self) -> (core: &Core<T>)
        ensures
            *core == self.held(),
    ;
}

/// A notification is one to one more listener of the event, and the guards that are given out are
/// those of the lock.
pub(crate) proof fn notifications_and_guards_are_the_cores<T>(
    core: Core<T>,
    read: Option<async_lock::RwLockReadGuard<'_, T>>,
    write: Option<async_lock::RwLockWriteGuard<'_, T>>,
)
    ensures
        core.notification_sent() ==> exists|notified: usize| #[trigger]
            call_ensures(notify_additional, (&core.change_event(), 1usize), notified),
        core.read_answered(read) ==> call_ensures(try_read_lock::<T>, (&core.value_lock(),), read),
        core.write_answered(write) ==> call_ensures(
            try_write_lock::<T>,
            (&core.value_lock(),),
            write,
        ),
{
}

} // verus!
