//! The reader-writer lock of `async_lock` and the event of `event_listener`.
//!
//! Both are shared between threads, so that nothing is known here of what they hold.

use vstd::prelude::*;

use event_listener::IntoNotification;

verus! {

/// The lock `async_lock::RwLock`.
#[verifier::external_type_specification]
#[verifier::external_body]
#[verifier::reject_recursive_types(T)]
pub struct ExRwLock<T: ?Sized>(async_lock::RwLock<T>);

/// The guard `async_lock::RwLockReadGuard`.
#[verifier::external_type_specification]
#[verifier::external_body]
#[verifier::reject_recursive_types(T)]
pub struct ExRwLockReadGuard<'a, T: ?Sized>(async_lock::RwLockReadGuard<'a, T>);

/// The guard `async_lock::RwLockWriteGuard`.
#[verifier::external_type_specification]
#[verifier::external_body]
#[verifier::reject_recursive_types(T)]
pub struct ExRwLockWriteGuard<'a, T: ?Sized>(async_lock::RwLockWriteGuard<'a, T>);

/// The event `event_listener::Event`.
#[verifier::external_type_specification]
#[verifier::external_body]
#[verifier::reject_recursive_types(T)]
pub struct ExEvent<T>(event_listener::Event<T>);

/// `async_lock::RwLock::new` makes a lock around a value. Nothing is claimed of the lock: the
/// value in it changes while the lock is shared.
pub assume_specification<T>[ async_lock::RwLock::<T>::new ](t: T) -> async_lock::RwLock<T>;

/// `async_lock::RwLock::try_read` gives a read guard if no writer holds the lock or waits for it.
/// Whether one does rests on other threads, so nothing is claimed of the result.
#[verifier::external_body]
pub(crate) fn try_read_lock<'a, T>(lock: &'a async_lock::RwLock<T>) -> Option<
    async_lock::RwLockReadGuard<'a, T>,
> {
    lock.try_read()
}

/// `async_lock::RwLock::try_write` gives a write guard if nobody holds the lock. Whether somebody
/// does rests on other threads, so nothing is claimed of the result.
#[verifier::external_body]
pub(crate) fn try_write_lock<'a, T>(lock: &'a async_lock::RwLock<T>) -> Option<
    async_lock::RwLockWriteGuard<'a, T>,
> {
    lock.try_write()
}

/// `event_listener::Event::new` makes an event that nobody listens to. Nothing is claimed of it.
pub assume_specification[ event_listener::Event::<()>::new ]() -> event_listener::Event<()>;

/// `event_listener::Event::notify`, given an `additional` notification, notifies up to `n`
/// listeners that have not been notified yet and returns how many it has notified. Which
/// listeners there are rests on other threads.
#[verifier::external_body]
pub(crate) fn notify_additional(event: &event_listener::Event, n: usize) -> (notified: usize)
    ensures
        notified <= n,
{
    event.notify(n.additional())
}

} // verus!
