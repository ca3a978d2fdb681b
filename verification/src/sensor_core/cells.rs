//! The counters and the event that the writers and observers of a sensor share between threads.
//!
//! What they hold rests on other threads. What is done to them is fixed here: writers are counted
//! one by one, updates are added one by one, a sensor is closed only by the writer that has found
//! itself the last one, and each of these deeds is entered in the account of the operation that it
//! is a part of.

use vstd::prelude::*;

use std::sync::atomic::{AtomicUsize, Ordering};

use crate::sensor_core::external::notify_additional;
use crate::version::{CLOSED_BIT, VERSION_BUMP};

verus! {

/// One thing that is done to what the threads of a sensor share.
pub enum Deed {
    /// An update was added to the version.
    Updated,
    /// One more writer was counted.
    WriterCounted,
    /// One writer less was counted.
    WriterTakenOff,
    /// The closed bit was set.
    Closed,
    /// One more listener was notified.
    Notified,
}

/// The account of one operation on a core.
pub struct Account {
    deeds: Ghost<Seq<Deed>>,
}

/// Whether an operation has ended whose account held exactly `deeds`.
pub closed spec fn accounted(deeds: Seq<Deed>) -> bool {
    exists|account: Account| #[trigger]
        call_ensures(Account::sign, (&account,), ()) && account.deeds() == deeds
}

impl Account {
    /// What has been done so far, in its order.
    pub closed spec fn deeds(&self) -> Seq<Deed> {
        self.deeds@
    }

    /// The account of an operation that has done nothing yet.
    pub(crate) fn open() -> (account: Self)
        ensures
            account.deeds() == Seq::<Deed>::empty(),
    {
        Account { deeds: Ghost(Seq::empty()) }
    }

    fn sign(&self) {
    }

    /// Ends the operation with what it has done.
    pub(crate) fn finish(self)
        ensures
            accounted(self.deeds()),
    {
        self.sign();
        assert(call_ensures(Account::sign, (&self,), ()));
    }
}

/// The number of writers of a sensor.
pub(crate) struct WriterCount {
    cell: AtomicUsize,
}

impl WriterCount {
    /// The counter.
    pub(crate) closed spec fn cell(&self) -> AtomicUsize {
        self.cell
    }

    /// A count of `count` writers.
    pub(crate) fn new(count: usize) -> (writers: Self)
        ensures
            call_ensures(AtomicUsize::new, (count,), writers.cell()),
    {
        WriterCount { cell: AtomicUsize::new(count) }
    }

    /// Counts one more writer, and tells how many there were.
    pub(crate) fn count_one(&self, account: &mut Account) -> (previous: usize)
        ensures
            call_ensures(AtomicUsize::fetch_add, (&self.cell(), 1, Ordering::Relaxed), previous),
            final(account).deeds() == old(account).deeds().push(Deed::WriterCounted),
    {
        account.deeds = Ghost(account.deeds@.push(Deed::WriterCounted));
        self.cell.fetch_add(1, Ordering::Relaxed)
    }

    /// Counts one writer less, and tells how many there were.
    pub(crate) fn take_one_off(&self, account: &mut Account) -> (previous: usize)
        ensures
            call_ensures(AtomicUsize::fetch_sub, (&self.cell(), 1, Ordering::Relaxed), previous),
            final(account).deeds() == old(account).deeds().push(Deed::WriterTakenOff),
    {
        account.deeds = Ghost(account.deeds@.push(Deed::WriterTakenOff));
        self.cell.fetch_sub(1, Ordering::Relaxed)
    }
}

/// The version of a sensor.
pub(crate) struct SharedVersion {
    cell: AtomicUsize,
}

impl SharedVersion {
    /// The counter.
    pub(crate) closed spec fn cell(&self) -> AtomicUsize {
        self.cell
    }

    /// The first version of an open sensor.
    pub(crate) fn new() -> (version: Self)
        ensures
            call_ensures(AtomicUsize::new, (0,), version.cell()),
    {
        SharedVersion { cell: AtomicUsize::new(0) }
    }

    /// The current version.
    pub(crate) fn load(&self, order: Ordering) -> (version: usize)
        requires
            order == Ordering::Relaxed || order == Ordering::Acquire,
        ensures
            call_ensures(AtomicUsize::load, (&self.cell(), order), version),
    {
        self.cell.load(order)
    }

    /// Adds one update.
    pub(crate) fn add_update(&self, order: Ordering, account: &mut Account)
        ensures
            exists|previous: usize| #[trigger]
                call_ensures(AtomicUsize::fetch_add, (&self.cell(), VERSION_BUMP, order), previous),
            final(account).deeds() == old(account).deeds().push(Deed::Updated),
    {
        account.deeds = Ghost(account.deeds@.push(Deed::Updated));
        let previous: usize = self.cell.fetch_add(VERSION_BUMP, order);
        assert(call_ensures(AtomicUsize::fetch_add, (&self.cell(), VERSION_BUMP, order), previous));
    }

    /// Sets the closed bit. Only the writer that was taken off `writers` as the last one may do so.
    pub(crate) fn close(
        &self,
        writers: &WriterCount,
        previous: usize,
        order: Ordering,
        account: &mut Account,
    )
        requires
            call_ensures(AtomicUsize::fetch_sub, (&writers.cell(), 1, Ordering::Relaxed), previous),
            previous == 1,
        ensures
            exists|version: usize| #[trigger]
                call_ensures(AtomicUsize::fetch_or, (&self.cell(), CLOSED_BIT, order), version),
            final(account).deeds() == old(account).deeds().push(Deed::Closed),
    {
        account.deeds = Ghost(account.deeds@.push(Deed::Closed));
        let version: usize = self.cell.fetch_or(CLOSED_BIT, order);
        assert(call_ensures(AtomicUsize::fetch_or, (&self.cell(), CLOSED_BIT, order), version));
    }
}

/// The event of a change.
pub(crate) struct ChangeEvent {
    event: event_listener::Event,
}

impl ChangeEvent {
    /// The event.
    pub(crate) closed spec fn event(&self) -> event_listener::Event {
        self.event
    }

    /// An event that nobody listens to.
    pub(crate) fn new() -> (event: Self)
        ensures
            call_ensures(event_listener::Event::<()>::new, (), event.event()),
    {
        ChangeEvent { event: event_listener::Event::new() }
    }

    /// The event, to listen to.
    pub(crate) fn listened(&self) -> (event: &event_listener::Event)
        ensures
            *event == self.event(),
    {
        &self.event
    }

    /// Notifies one more listener.
    pub(crate) fn notify(&self, account: &mut Account)
        ensures
            exists|notified: usize| #[trigger]
                call_ensures(notify_additional, (&self.event(), 1), notified),
            final(account).deeds() == old(account).deeds().push(Deed::Notified),
    {
        account.deeds = Ghost(account.deeds@.push(Deed::Notified));
        let notified: usize = notify_additional(&self.event, 1);
        assert(call_ensures(notify_additional, (&self.event(), 1), notified));
    }
}

} // verus!
