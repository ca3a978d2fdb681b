//! The futures of the single-threaded core, each as one step at a time.

use vstd::prelude::*;

use crate::poll::Poll;
use crate::version::Version;

use super::state;
use super::state::{Lock, Node, SingleState, Slot};
use super::{AsyncSingleCore, ReadGuard, WriteGuard};

verus! {

/// A future that becomes a read guard.
pub struct Read {
    node: Option<usize>,
}

impl Read {
    /// The slot of the request, once it waits.
    pub closed spec fn slot(self) -> Option<usize> {
        self.node
    }

    /// Whether the request is known to a core in this state.
    pub open spec fn known<T, W>(self, state: SingleState<T, W>) -> bool {
        self.slot() matches Some(id) ==> state.live(id)
    }

    /// Takes one step. At first a reader is let in if the lock allows it and queued if not; a
    /// queued request is ready once it has been granted.
    pub fn poll<T, W: Clone>(&mut self, core: &mut AsyncSingleCore<T, W>, waker: &W) -> (polled: Poll<
        ReadGuard,
    >)
        requires
            old(core)@.wf(),
            old(self).known(old(core)@),
        ensures
            final(core)@.wf(),
            final(self).known(final(core)@),
            match old(self).slot() {
                Some(id) => {
                    &&& final(self).slot() == Some(id)
                    &&& final(core)@ == old(core)@
                    &&& polled is Ready <==> old(core)@.slots[id as int] == Slot::Ready
                },
                None => if old(core)@.readable() {
                    &&& polled is Ready
                    &&& final(self).slot() is None
                    &&& final(core)@ == old(core)@.reader_entered()
                } else {
                    &&& polled is Pending
                    &&& final(self).slot() matches Some(id)
                    &&& old(core)@.vacant(id)
                    &&& exists|w: W| #[trigger]
                        cloned(*waker, w) && final(core)@ == old(core)@.queued(id, false, w)
                },
            },
    {
        match self.node {
            None => {
                if let Some(guard) = core.try_read() {
                    return Poll::Ready(guard);
                }
                let own = waker.clone();
                assert(cloned(*waker, own));
                self.node = Some(core.enqueue(false, own));
            },
            Some(id) => {
                if core.slots[id] == Slot::Ready {
                    return Poll::Ready(ReadGuard { _private: () });
                }
            },
        }
        Poll::Pending
    }

    /// Ends the future: a request that still waits leaves the queue.
    pub fn drop<T, W>(self, core: &mut AsyncSingleCore<T, W>)
        requires
            old(core)@.wf(),
            self.known(old(core)@),
        ensures
            final(core)@ == match self.slot() {
                Some(id) => old(core)@.withdrawn(id),
                None => old(core)@,
            },
            final(core)@.wf(),
    {
        if let Some(id) = self.node {
            core.withdraw(id);
        }
    }
}

/// A future that becomes a write guard.
pub struct Write {
    node: Option<usize>,
}

impl Write {
    /// The slot of the request, once it waits.
    pub closed spec fn slot(self) -> Option<usize> {
        self.node
    }

    /// Whether the request is known to a core in this state.
    pub open spec fn known<T, W>(self, state: SingleState<T, W>) -> bool {
        self.slot() matches Some(id) ==> state.live(id)
    }

    /// Takes one step. At first a writer is let in if the lock allows it and queued if not; a
    /// queued request is ready once it has been granted.
    pub fn poll<T, W: Clone>(&mut self, core: &mut AsyncSingleCore<T, W>, waker: &W) -> (polled: Poll<
        WriteGuard,
    >)
        requires
            old(core)@.wf(),
            old(self).known(old(core)@),
        ensures
            final(core)@.wf(),
            final(self).known(final(core)@),
            match old(self).slot() {
                Some(id) => {
                    &&& final(self).slot() == Some(id)
                    &&& final(core)@ == old(core)@
                    &&& polled is Ready <==> old(core)@.slots[id as int] == Slot::Ready
                },
                None => if old(core)@.writable() {
                    &&& polled is Ready
                    &&& final(self).slot() is None
                    &&& final(core)@ == old(core)@.writer_entered()
                } else {
                    &&& polled is Pending
                    &&& final(self).slot() matches Some(id)
                    &&& old(core)@.vacant(id)
                    &&& exists|w: W| #[trigger]
                        cloned(*waker, w) && final(core)@ == old(core)@.queued(id, true, w)
                },
            },
    {
        if let Some(id) = self.node {
            return if core.slots[id] == Slot::Ready {
                Poll::Ready(WriteGuard { _private: () })
            } else {
                Poll::Pending
            };
        }
        if let Some(guard) = core.try_write() {
            return Poll::Ready(guard);
        }
        let own = waker.clone();
        assert(cloned(*waker, own));
        self.node = Some(core.enqueue(true, own));
        Poll::Pending
    }

    /// Ends the future: a request that still waits leaves the queue.
    pub fn drop<T, W>(self, core: &mut AsyncSingleCore<T, W>)
        requires
            old(core)@.wf(),
            self.known(old(core)@),
        ensures
            final(core)@ == match self.slot() {
                Some(id) => old(core)@.withdrawn(id),
                None => old(core)@,
            },
            final(core)@.wf(),
    {
        if let Some(id) = self.node {
            core.withdraw(id);
        }
    }
}

/// How far a future that watches the version is.
pub enum Progress {
    /// It has not waited yet and compares the version with this one.
    Watching(Version),
    /// Its request uses this slot.
    Registered(usize),
}

impl Progress {
    /// Whether the request is known to a core in this state.
    pub open spec fn known<T, W>(self, state: SingleState<T, W>) -> bool {
        self matches Progress::Registered(id) ==> state.live(id)
    }

    /// Whether the request has been granted in this state.
    pub open spec fn granted<T, W>(self, state: SingleState<T, W>) -> bool {
        self matches Progress::Registered(id) && state.slots[id as int] == Slot::Ready
    }

    /// The state after the request has been taken back.
    pub open spec fn withdrawn_from<T, W>(self, state: SingleState<T, W>) -> SingleState<T, W> {
        match self {
            Progress::Watching(_) => state,
            Progress::Registered(id) => state.withdrawn(id),
        }
    }
}

/// A future that becomes a read guard once the version differs from a reference version or the
/// sensor is closed.
pub struct ConditionalRead {
    node: Progress,
}

impl ConditionalRead {
    /// How far the future is.
    pub closed spec fn progress(self) -> Progress {
        self.node
    }

    /// A future that waits until the version differs from `reference_version`.
    pub fn new(reference_version: Version) -> (future: Self)
        ensures
            future.progress() == Progress::Watching(reference_version),
    {
        ConditionalRead { node: Progress::Watching(reference_version) }
    }

    /// Takes one step.
    ///
    /// On a closed sensor a guard is given out at once, without being counted. Otherwise a read that has seen the
    /// current version becomes idle, and any other one is let in or queued as a [`Read`] is. A
    /// registered request is ready once it has been granted.
    pub fn poll<T, W: Clone>(&mut self, core: &mut AsyncSingleCore<T, W>, waker: &W) -> (polled: Poll<
        (ReadGuard, Version),
    >)
        requires
            old(core)@.wf(),
            old(self).progress().known(old(core)@),
        ensures
            final(core)@.wf(),
            final(self).progress().known(final(core)@),
            polled matches Poll::Ready((_, version)) ==> version == old(core)@.version,
            if old(core)@.version.is_closed() {
                &&& polled is Ready
                &&& final(self).progress() == old(self).progress()
                &&& final(core)@ == old(core)@
            } else {
                match old(self).progress() {
                    Progress::Watching(reference) => if reference == old(core)@.version {
                        &&& polled is Pending
                        &&& final(self).progress() matches Progress::Registered(id)
                        &&& old(core)@.vacant(id)
                        &&& exists|w: W| #[trigger]
                            cloned(*waker, w) && final(core)@ == old(core)@.idled(id, w)
                    } else if old(core)@.readable() {
                        &&& polled is Ready
                        &&& final(self).progress() == old(self).progress()
                        &&& final(core)@ == old(core)@.reader_entered()
                    } else {
                        &&& polled is Pending
                        &&& final(self).progress() matches Progress::Registered(id)
                        &&& old(core)@.vacant(id)
                        &&& exists|w: W| #[trigger]
                            cloned(*waker, w) && final(core)@ == old(core)@.queued(id, false, w)
                    },
                    Progress::Registered(id) => {
                        &&& final(self).progress() == old(self).progress()
                        &&& final(core)@ == old(core)@
                        &&& polled is Ready <==> old(core)@.slots[id as int] == Slot::Ready
                    },
                }
            },
    {
        if core.version.closed_bit_set() {
            return Poll::Ready((core.force_read(), core.version));
        }
        match self.node {
            Progress::Watching(reference_version) => {
                if reference_version == core.version {
                    let ghost state = core@;
                    let own = waker.clone();
                    assert(cloned(*waker, own));
                    let id = core.allocate();
                    core.idle_reads.push(Node { id, writer: false, waker: own });
                    self.node = Progress::Registered(id);
                    proof {
                        state::lemma_occupied_wf(state, id, own);
                    }
                    return Poll::Pending;
                }
                if let Some(guard) = core.try_read() {
                    return Poll::Ready((guard, core.version));
                }
                let own = waker.clone();
                assert(cloned(*waker, own));
                self.node = Progress::Registered(core.enqueue(false, own));
            },
            Progress::Registered(id) => {
                if core.slots[id] == Slot::Ready {
                    return Poll::Ready((ReadGuard { _private: () }, core.version));
                }
            },
        }
        Poll::Pending
    }

    /// Ends the future: a request that still waits leaves its list.
    pub fn drop<T, W>(self, core: &mut AsyncSingleCore<T, W>)
        requires
            old(core)@.wf(),
            self.progress().known(old(core)@),
        ensures
            final(core)@ == self.progress().withdrawn_from(old(core)@),
            final(core)@.wf(),
    {
        if let Progress::Registered(id) = self.node {
            core.withdraw(id);
        }
    }
}

/// A future that becomes the version once it differs from a reference version or the sensor is
/// closed.
pub struct WaitChanged {
    node: Progress,
}

impl WaitChanged {
    /// How far the future is.
    pub closed spec fn progress(self) -> Progress {
        self.node
    }

    /// Takes one step.
    ///
    /// On a closed sensor, and where the version differs from the reference, the version is given
    /// out at once. Otherwise the future becomes a waiter, which is ready once an update has
    /// released it.
    pub fn poll<T, W: Clone>(&mut self, core: &mut AsyncSingleCore<T, W>, waker: &W) -> (polled: Poll<
        Version,
    >)
        requires
            old(core)@.wf(),
            old(self).progress().known(old(core)@),
        ensures
            final(core)@.wf(),
            final(self).progress().known(final(core)@),
            polled matches Poll::Ready(version) ==> version == old(core)@.version,
            match old(self).progress() {
                Progress::Watching(reference) if reference == old(core)@.version
                    && !old(core)@.version.is_closed() => {
                    &&& polled is Pending
                    &&& final(self).progress() matches Progress::Registered(id)
                    &&& old(core)@.vacant(id)
                    &&& exists|w: W| #[trigger]
                        cloned(*waker, w) && final(core)@ == old(core)@.awaited(id, w)
                },
                Progress::Watching(_) => {
                    &&& polled is Ready
                    &&& final(self).progress() == old(self).progress()
                    &&& final(core)@ == old(core)@
                },
                Progress::Registered(id) => {
                    &&& polled is Ready <==> (old(core)@.version.is_closed()
                        || old(core)@.slots[id as int] == Slot::Ready)
                    &&& final(self).progress() == old(self).progress()
                    &&& final(core)@ == old(core)@
                },
            },
    {
        if core.version.closed_bit_set() {
            return Poll::Ready(core.version);
        }
        match self.node {
            Progress::Watching(reference_version) => {
                if reference_version == core.version {
                    let ghost state = core@;
                    let own = waker.clone();
                    assert(cloned(*waker, own));
                    let id = core.allocate();
                    core.waiters.insert(0, Node { id, writer: false, waker: own });
                    self.node = Progress::Registered(id);
                    proof {
                        state::lemma_occupied_wf(state, id, own);
                        assert(core@.waiters =~= state.awaited(id, own).waiters);
                    }
                    return Poll::Pending;
                }
            },
            Progress::Registered(id) => {
                if core.slots[id] != Slot::Ready {
                    return Poll::Pending;
                }
            },
        }
        Poll::Ready(core.version)
    }

    /// Ends the future: a waiter that has not been released leaves the list.
    pub fn drop<T, W>(self, core: &mut AsyncSingleCore<T, W>)
        requires
            old(core)@.wf(),
            self.progress().known(old(core)@),
        ensures
            final(core)@ == self.progress().withdrawn_from(old(core)@),
            final(core)@.wf(),
    {
        if let Progress::Registered(id) = self.node {
            core.withdraw(id);
        }
    }
}

impl<T, W> AsyncSingleCore<T, W> {
    /// A future that becomes a read guard.
    pub fn read(&self) -> (future: Read)
        ensures
            future.slot() is None,
    {
        Read { node: None }
    }

    /// A future that becomes a write guard.
    pub fn write(&self) -> (future: Write)
        ensures
            future.slot() is None,
    {
        Write { node: None }
    }

    /// A future that becomes the version once it differs from `reference_version`.
    pub fn wait_changed(&self, reference_version: Version) -> (future: WaitChanged)
        ensures
            future.progress() == Progress::Watching(reference_version),
    {
        WaitChanged { node: Progress::Watching(reference_version) }
    }

    /// A future that becomes a read guard once a condition holds of the data at a version other
    /// than `reference_version`, or the sensor is closed.
    pub fn wait_for(&self, reference_version: Version) -> (future: WaitFor)
        ensures
            future.progress() == Progress::Watching(reference_version),
    {
        WaitFor { read: ConditionalRead::new(reference_version) }
    }
}

/// A future that becomes a read guard once a condition holds of the data.
pub struct WaitFor {
    read: ConditionalRead,
}

impl WaitFor {
    /// How far the read that is under way is.
    pub closed spec fn progress(self) -> Progress {
        self.read.progress()
    }

    /// Takes one step, and hands out the wakers of those that a lock given back goes to.
    ///
    /// A closed sensor ends the wait whatever the data. Otherwise each read that is let in tests
    /// the condition; where it does not hold, the guard is given back and the future waits for
    /// the next version.
    pub fn poll<T, W: Clone, C: FnMut(&T) -> bool>(
        &mut self,
        core: &mut AsyncSingleCore<T, W>,
        waker: &W,
        condition: &mut C,
    ) -> (result: (Poll<(ReadGuard, Version)>, Vec<W>))
        requires
            old(core)@.wf(),
            old(self).progress().known(old(core)@),
            old(self).progress().granted(old(core)@) ==> (old(core)@.lock matches Lock::Readers(n)
                && n > 0),
            call_requires(*old(condition), (&old(core)@.data,)),
        ensures
            final(core)@.wf(),
            final(self).progress().known(final(core)@),
            *final(condition) == *old(condition),
            result.0 matches Poll::Ready((_, version)) ==> version == old(core)@.version,
            if old(core)@.version.is_closed() {
                &&& result.0 is Ready
                &&& result.1@ == Seq::<W>::empty()
                &&& final(self).progress() == old(self).progress()
                &&& final(core)@ == old(core)@
            } else {
                match old(self).progress() {
                    Progress::Watching(reference) if reference == old(core)@.version => {
                        &&& result.0 is Pending
                        &&& result.1@ == Seq::<W>::empty()
                        &&& final(self).progress() matches Progress::Registered(id)
                        &&& old(core)@.vacant(id)
                        &&& exists|w: W| #[trigger]
                            cloned(*waker, w) && final(core)@ == old(core)@.idled(id, w)
                    },
                    Progress::Watching(_) if !old(core)@.readable() => {
                        &&& result.0 is Pending
                        &&& result.1@ == Seq::<W>::empty()
                        &&& final(self).progress() matches Progress::Registered(id)
                        &&& old(core)@.vacant(id)
                        &&& exists|w: W| #[trigger]
                            cloned(*waker, w) && final(core)@ == old(core)@.queued(id, false, w)
                    },
                    Progress::Registered(id) if old(core)@.slots[id as int] != Slot::Ready => {
                        &&& result.0 is Pending
                        &&& result.1@ == Seq::<W>::empty()
                        &&& final(self).progress() == old(self).progress()
                        &&& final(core)@ == old(core)@
                    },
                    started => {
                        let reading = if started is Watching {
                            old(core)@.reader_entered()
                        } else {
                            old(core)@
                        };
                        let left = started.withdrawn_from(reading.reader_left());
                        exists|holds: bool| #[trigger]
                            call_ensures(*old(condition), (&old(core)@.data,), holds) && if holds {
                                &&& result.0 is Ready
                                &&& result.1@ == Seq::<W>::empty()
                                &&& final(self).progress() == started
                                &&& final(core)@ == reading
                            } else {
                                &&& result.0 is Pending
                                &&& result.1@ == reading.reader_left_wakes()
                                &&& final(self).progress() matches Progress::Registered(id)
                                &&& left.vacant(id)
                                &&& exists|w: W| #[trigger]
                                    cloned(*waker, w) && final(core)@ == left.idled(id, w)
                            }
                    },
                }
            },
    {
        match self.read.poll(core, waker) {
            Poll::Pending => (Poll::Pending, Vec::new()),
            Poll::Ready((guard, version)) => {
                if version.closed_bit_set() {
                    return (Poll::Ready((guard, version)), Vec::new());
                }
                if condition(&core.data) {
                    return (Poll::Ready((guard, version)), Vec::new());
                }
                let woken = guard.drop(core);
                let mut read = ConditionalRead::new(version);
                std::mem::swap(&mut self.read, &mut read);
                read.drop(core);
                let again = self.read.poll(core, waker);
                assert(again is Pending);
                (Poll::Pending, woken)
            },
        }
    }

    /// Ends the future: a request that still waits leaves its list.
    pub fn drop<T, W>(self, core: &mut AsyncSingleCore<T, W>)
        requires
            old(core)@.wf(),
            self.progress().known(old(core)@),
        ensures
            final(core)@ == self.progress().withdrawn_from(old(core)@),
            final(core)@.wf(),
    {
        self.read.drop(core)
    }
}

} // verus!
