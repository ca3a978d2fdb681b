//! A single-threaded sensor core with a fair reader-writer queue.

use vstd::prelude::*;

use crate::version::Version;

pub mod calls;
pub mod effects;
pub mod futures;
pub mod laws;
pub mod state;

use state::{Lock, Node, SingleState, Slot, MAX_READERS, WRITER_ACTIVE};

verus! {

/// A single-threaded sensor core.
///
/// Futures wait in it by slot: a future that waits holds the number of a slot, and the core tells
/// by that slot when the request has been granted.
pub struct AsyncSingleCore<T, W> {
    version: Version,
    registered_writers: usize,
    // `WRITER_ACTIVE` while a writer is active.
    reader_count: usize,
    // Fair reader-writer queue.
    queue: Vec<Node<W>>,
    // Idle reads awaiting a version update.
    idle_reads: Vec<Node<W>>,
    // Waiters for a version update, latest first.
    waiters: Vec<Node<W>>,
    slots: Vec<Slot>,
    data: T,
}

impl<T, W> View for AsyncSingleCore<T, W> {
    type V = SingleState<T, W>;

    closed spec fn view(&self) -> SingleState<T, W> {
        SingleState {
            version: self.version,
            writers: self.registered_writers as nat,
            lock: if self.reader_count == WRITER_ACTIVE {
                Lock::Writer
            } else {
                Lock::Readers(self.reader_count as nat)
            },
            queue: self.queue@,
            idle_reads: self.idle_reads@,
            waiters: self.waiters@,
            slots: self.slots@,
            data: self.data,
        }
    }
}

impl<T, W> AsyncSingleCore<T, W> {
    /// Gives the lock to the first set of queued readers or to a single writer, and hands out
    /// their wakers in the order in which they are to be woken.
    ///
    /// This is for a lock that has just been given back and that nobody else holds.
    fn wake_next_set(&mut self) -> (woken: Vec<W>)
        requires
            old(self)@.wf(),
        ensures
            final(self)@ == old(self)@.handed_over(),
            final(self)@.wf(),
            woken@ == old(self)@.handed_over_to(),
    {
        let ghost state = self@;
        proof {
            state::lemma_handed_over_wf(state);
            state::lemma_leading_reads_bound(state.queue);
        }
        let mut woken: Vec<W> = Vec::new();
        if self.queue.len() > 0 && self.queue[0].writer {
            self.reader_count = WRITER_ACTIVE;
            let node = self.queue.remove(0);
            self.slots[node.id] = Slot::Ready;
            woken.push(node.waker);
            proof {
                state::lemma_granted_none(state.slots, state.queue);
                state::lemma_granted_step(state.slots, state.queue, 0);
                assert(self.queue@ =~= state.queue.skip(1));
                assert(woken@ =~= state::wakers(state.queue.take(1)));
            }
            return woken;
        }
        self.reader_count = 0;
        proof {
            state::lemma_granted_none(state.slots, state.queue);
            assert(state.queue.skip(0) =~= state.queue);
            assert(woken@ =~= state::wakers(state.queue.take(0)));
        }
        while self.reader_count < MAX_READERS && self.queue.len() > 0 && !self.queue[0].writer
            invariant
                state.wf(),
                self.reader_count <= MAX_READERS,
                self.reader_count <= state.queue.len(),
                self.queue@ == state.queue.skip(self.reader_count as int),
                woken@ == state::wakers(state.queue.take(self.reader_count as int)),
                self.slots@ == state::granted(state.slots, state.queue.take(self.reader_count as int)),
                state::leading_reads(state.queue) == self.reader_count + state::leading_reads(self.queue@),
                self.version == state.version,
                self.registered_writers == state.writers,
                self.idle_reads@ == state.idle_reads,
                self.waiters@ == state.waiters,
                self.data == state.data,
            decreases self.queue.len(),
        {
            let ghost k = self.reader_count as int;
            proof {
                assert(self.queue@[0] == state.queue[k]);
                assert(self.queue@.drop_first() =~= state.queue.skip(k + 1));
                state::lemma_granted_step(state.slots, state.queue, k);
            }
            let node = self.queue.remove(0);
            self.slots[node.id] = Slot::Ready;
            woken.push(node.waker);
            self.reader_count = self.reader_count + 1;
            proof {
                assert(self.queue@ =~= state.queue.skip(k + 1));
                assert(woken@ =~= state::wakers(state.queue.take(k + 1)));
            }
        }
        woken
    }
}

impl<T, W> AsyncSingleCore<T, W> {
    /// A core with one registered writer that holds `value`.
    pub fn new(value: T) -> (core: Self)
        ensures
            core@ == (SingleState::<T, W> {
                version: Version(0),
                writers: 1,
                lock: Lock::Readers(0),
                queue: Seq::empty(),
                idle_reads: Seq::empty(),
                waiters: Seq::empty(),
                slots: Seq::empty(),
                data: value,
            }),
            core@.wf(),
    {
        AsyncSingleCore {
            version: Version(0),
            registered_writers: 1,
            reader_count: 0,
            queue: Vec::new(),
            idle_reads: Vec::new(),
            waiters: Vec::new(),
            slots: Vec::new(),
            data: value,
        }
    }

    /// Whether a reader is active.
    pub fn is_read(&self) -> (read: bool)
        ensures
            read == (self@.lock matches Lock::Readers(n) && n > 0),
    {
        self.reader_count > 0 && self.reader_count != WRITER_ACTIVE
    }

    /// The number of registered writers.
    pub fn registered_writers(&self) -> (count: usize)
        ensures
            count == self@.writers,
    {
        self.registered_writers
    }

    /// Counts one more writer.
    pub fn register_writer(&mut self)
        requires
            old(self)@.writers < usize::MAX,
        ensures
            final(self)@ == (SingleState { writers: old(self)@.writers + 1, ..old(self)@ }),
    {
        self.registered_writers = self.registered_writers + 1;
    }

    /// Counts one writer less. The last one closes the sensor, which releases those that wait for
    /// a version. Hands out the wakers in the order in which they are to be woken.
    pub fn deregister_writer(&mut self) -> (woken: Vec<W>)
        requires
            old(self)@.wf(),
            old(self)@.writers > 0,
        ensures
            final(self)@ == old(self)@.writer_gone(),
            final(self)@.wf(),
            woken@ == old(self)@.writer_gone_wakes(),
    {
        self.registered_writers = self.registered_writers - 1;
        if self.registered_writers == 0 {
            let woken = self.release_waiting();
            self.version.set_closed_bit();
            return woken;
        }
        Vec::new()
    }

    /// The current version.
    pub fn version(&self) -> (version: Version)
        ensures
            version == self@.version,
    {
        self.version
    }

    /// Counts an update, lets the idle reads in or queues them, and releases the waiters. Hands
    /// out the wakers in the order in which they are to be woken.
    pub fn mark_unseen(&mut self) -> (woken: Vec<W>)
        requires
            old(self)@.wf(),
        ensures
            final(self)@ == old(self)@.updated(),
            final(self)@.wf(),
            woken@ == old(self)@.updated_wakes(),
            woken@.len() == old(self)@.admitted() + old(self)@.waiters.len(),
            forall|i: int|
                0 <= i < old(self)@.waiters.len() ==> woken@[old(self)@.admitted() + i] == (
                #[trigger] old(self)@.waiters[i]).waker,
    {
        let woken = self.release_waiting();
        self.version.increment();
        woken
    }

    /// Lets the idle reads in or queues them, and releases the waiters. Hands out the wakers in
    /// the order in which they are to be woken.
    fn release_waiting(&mut self) -> (woken: Vec<W>)
        requires
            old(self)@.wf(),
        ensures
            final(self)@ == old(self)@.released(),
            final(self)@.wf(),
            woken@ == old(self)@.updated_wakes(),
    {
        let ghost state = self@;
        proof {
            state::lemma_released_wf(state);
        }
        let mut woken: Vec<W> = Vec::new();
        let ghost mut n: int = 0;
        proof {
            state::lemma_granted_none(state.slots, state.idle_reads);
            assert(state.idle_reads.skip(0) =~= state.idle_reads);
            assert(woken@ =~= state::wakers(state.idle_reads.take(0)));
        }
        if self.queue.len() == 0 {
            while self.idle_reads.len() > 0 && self.reader_count < MAX_READERS
                invariant
                    state.wf(),
                    state.queue.len() == 0,
                    0 <= n <= state.idle_reads.len(),
                    match state.lock {
                        Lock::Readers(readers) => self.reader_count == readers + n
                            && self.reader_count <= MAX_READERS,
                        Lock::Writer => self.reader_count == WRITER_ACTIVE && n == 0,
                    },
                    self.idle_reads@ == state.idle_reads.skip(n),
                    woken@ == state::wakers(state.idle_reads.take(n)),
                    self.slots@ == state::granted(state.slots, state.idle_reads.take(n)),
                    self.version == state.version,
                    self.registered_writers == state.writers,
                    self.queue@ == state.queue,
                    self.waiters@ == state.waiters,
                    self.data == state.data,
                decreases self.idle_reads.len(),
            {
                proof {
                    assert(self.idle_reads@[0] == state.idle_reads[n]);
                    state::lemma_granted_step(state.slots, state.idle_reads, n);
                }
                let node = self.idle_reads.remove(0);
                self.reader_count = self.reader_count + 1;
                self.slots[node.id] = Slot::Ready;
                woken.push(node.waker);
                proof {
                    n = n + 1;
                    assert(self.idle_reads@ =~= state.idle_reads.skip(n));
                    assert(woken@ =~= state::wakers(state.idle_reads.take(n)));
                }
            }
        }
        proof {
            assert(n == state.admitted());
        }
        // What exceeds `MAX_READERS` waits in the queue to be woken as the next set.
        self.queue.append(&mut self.idle_reads);
        let ghost middle = self.slots@;
        let ghost woken_reads = woken@;
        let ghost mut k: int = 0;
        let ghost after_reads = self.reader_count;
        proof {
            state::lemma_granted_none(middle, state.waiters);
            assert(state.waiters.skip(0) =~= state.waiters);
            assert(woken@ =~= woken_reads + state::wakers(state.waiters.take(0)));
        }
        while self.waiters.len() > 0
            invariant
                state.wf(),
                0 <= k <= state.waiters.len(),
                middle.len() == state.slots.len(),
                self.waiters@ == state.waiters.skip(k),
                woken@ == woken_reads + state::wakers(state.waiters.take(k)),
                self.slots@ == state::granted(middle, state.waiters.take(k)),
                self.version == state.version,
                self.registered_writers == state.writers,
                self.reader_count == after_reads,
                self.queue@ == state.queue + state.idle_reads.skip(n),
                self.idle_reads@ == Seq::<Node<W>>::empty(),
                self.data == state.data,
            decreases self.waiters.len(),
        {
            proof {
                assert(self.waiters@[0] == state.waiters[k]);
                state::lemma_granted_step(middle, state.waiters, k);
            }
            let node = self.waiters.remove(0);
            self.slots[node.id] = Slot::Ready;
            woken.push(node.waker);
            proof {
                k = k + 1;
                assert(self.waiters@ =~= state.waiters.skip(k));
                assert(woken@ =~= woken_reads + state::wakers(state.waiters.take(k)));
            }
        }
        proof {
            assert(state.waiters.take(k) =~= state.waiters);
        }
        woken
    }

    /// Lets a reader in, unless anyone is queued or no more readers can be active.
    pub fn try_read(&mut self) -> (guard: Option<ReadGuard>)
        requires
            old(self)@.wf(),
        ensures
            guard is Some <==> old(self)@.readable(),
            guard is None ==> *final(self) == *old(self),
            final(self)@ == if old(self)@.readable() {
                old(self)@.reader_entered()
            } else {
                old(self)@
            },
            final(self)@.wf(),
    {
        if self.queue.len() == 0 && self.reader_count < MAX_READERS {
            self.reader_count = self.reader_count + 1;
            return Some(ReadGuard { _private: () });
        }
        None
    }

    /// Lets a writer in, unless anyone is queued or active.
    pub fn try_write(&mut self) -> (guard: Option<WriteGuard>)
        requires
            old(self)@.wf(),
        ensures
            guard is Some <==> old(self)@.writable(),
            guard is None ==> *final(self) == *old(self),
            final(self)@ == if old(self)@.writable() {
                old(self)@.writer_entered()
            } else {
                old(self)@
            },
            final(self)@.wf(),
    {
        if self.queue.len() == 0 && self.reader_count == 0 {
            self.reader_count = WRITER_ACTIVE;
            return Some(WriteGuard { _private: () });
        }
        None
    }
}

/// Shared access to the data of a core.
pub struct ReadGuard {
    _private: (),
}

/// Exclusive access to the data of a core.
pub struct WriteGuard {
    _private: (),
}

impl ReadGuard {
    /// The data that the guard gives access to.
    pub fn deref<'a, T, W>(&self, core: &'a AsyncSingleCore<T, W>) -> (data: &'a T)
        ensures
            *data == core@.data,
    {
        &core.data
    }

    /// Gives the guard back, and hands out the wakers of those that the lock now goes to.
    ///
    /// This lowers the number of readers whichever guard is given back, also one that was given
    /// out on a closed sensor without being counted.
    pub fn drop<T, W>(self, core: &mut AsyncSingleCore<T, W>) -> (woken: Vec<W>)
        requires
            old(core)@.wf(),
            old(core)@.lock matches Lock::Readers(n) && n > 0,
        ensures
            final(core)@ == old(core)@.reader_left(),
            final(core)@.wf(),
            woken@ == old(core)@.reader_left_wakes(),
            old(core)@.lock->Readers_0 > 1 ==> woken@.len() == 0 && final(core)@ == (SingleState {
                lock: Lock::Readers((old(core)@.lock->Readers_0 - 1) as nat),
                ..old(core)@
            }),
    {
        if core.reader_count == 1 {
            return core.wake_next_set();
        }
        core.reader_count = core.reader_count - 1;
        Vec::new()
    }
}

impl WriteGuard {
    /// The data that the guard gives access to.
    pub fn deref<'a, T, W>(&self, core: &'a AsyncSingleCore<T, W>) -> (data: &'a T)
        ensures
            *data == core@.data,
    {
        &core.data
    }

    /// The data that the guard gives access to.
    pub fn deref_mut<'a, T, W>(&self, core: &'a mut AsyncSingleCore<T, W>) -> (data: &'a mut T)
        ensures
            *data == old(core)@.data,
            final(core)@ == (SingleState { data: *final(data), ..old(core)@ }),
    {
        &mut core.data
    }

    /// Gives the guard back, and hands out the wakers of those that the lock now goes to.
    pub fn drop<T, W>(self, core: &mut AsyncSingleCore<T, W>) -> (woken: Vec<W>)
        requires
            old(core)@.wf(),
            old(core)@.lock == Lock::Writer,
        ensures
            final(core)@ == old(core)@.handed_over(),
            final(core)@.wf(),
            woken@ == old(core)@.handed_over_to(),
    {
        core.wake_next_set()
    }
}

/// Takes the nodes of slot `id` out of a list.
fn remove_node<W>(nodes: &mut Vec<Node<W>>, id: usize)
    ensures
        final(nodes)@ == state::without(old(nodes)@, id),
{
    let ghost all = nodes@;
    let mut i: usize = 0;
    let ghost mut k: int = 0;
    proof {
        state::lemma_without_step(all.take(0), id);
        assert(nodes@ =~= state::without(all.take(0), id) + all.skip(0));
    }
    while i < nodes.len()
        invariant
            0 <= k <= all.len(),
            i == state::without(all.take(k), id).len(),
            nodes@ == state::without(all.take(k), id) + all.skip(k),
        decreases nodes.len() - i,
    {
        let ghost kept = state::without(all.take(k), id);
        proof {
            state::lemma_without_step(all.take(k + 1), id);
            assert(nodes@[i as int] == all[k]);
            assert(all.take(k + 1).drop_last() =~= all.take(k));
            assert(all.take(k + 1).last() == all[k]);
        }
        if nodes[i].id == id {
            let _ = nodes.remove(i);
            proof {
                assert(nodes@ =~= kept + all.skip(k + 1));
            }
        } else {
            i = i + 1;
            proof {
                assert(nodes@ =~= kept.push(all[k]) + all.skip(k + 1));
            }
        }
        proof {
            k = k + 1;
        }
    }
    proof {
        assert(k == all.len());
        assert(all.take(k) =~= all);
        assert(nodes@ =~= state::without(all, id));
    }
}

impl<T, W> AsyncSingleCore<T, W> {
    /// Gives a slot to a new request.
    fn allocate(&mut self) -> (id: usize)
        ensures
            old(self)@.vacant(id),
            final(self)@ == (SingleState { slots: old(self)@.occupied(id), ..old(self)@ }),
    {
        let mut id: usize = 0;
        while id < self.slots.len()
            invariant
                self@ == old(self)@,
            decreases self.slots.len() - id,
        {
            if self.slots[id] == Slot::Free {
                self.slots[id] = Slot::Waiting;
                return id;
            }
            id = id + 1;
        }
        let id: usize = self.slots.len();
        self.slots.push(Slot::Waiting);
        id
    }

    /// Puts a request at the end of the reader-writer queue.
    fn enqueue(&mut self, writer: bool, waker: W) -> (id: usize)
        requires
            old(self)@.wf(),
            old(self)@.lock != Lock::Readers(0),
        ensures
            old(self)@.vacant(id),
            final(self)@ == old(self)@.queued(id, writer, waker),
            final(self)@.wf(),
    {
        let ghost state = self@;
        let id = self.allocate();
        self.queue.push(Node { id, writer, waker });
        proof {
            state::lemma_occupied_wf(state, id, waker);
        }
        id
    }

    /// Takes the request of slot `id` back.
    fn withdraw(&mut self, id: usize)
        requires
            old(self)@.wf(),
            old(self)@.live(id),
        ensures
            final(self)@ == old(self)@.withdrawn(id),
            final(self)@.wf(),
    {
        let ghost state = self@;
        proof {
            state::lemma_withdrawn_wf(state, id);
        }
        if self.slots[id] == Slot::Waiting {
            remove_node(&mut self.queue, id);
            remove_node(&mut self.idle_reads, id);
            remove_node(&mut self.waiters, id);
        } else {
            proof {
                state::lemma_without(state.queue, id);
                state::lemma_without(state.idle_reads, id);
                state::lemma_without(state.waiters, id);
            }
        }
        self.slots[id] = Slot::Free;
    }

    /// Gives out a read guard whatever the lock, without counting it.
    ///
    /// This is for a core whose writers are all gone, so that nothing is written any more.
    fn force_read(&self) -> (guard: ReadGuard)
        requires
            self@.version.is_closed(),
    {
        ReadGuard { _private: () }
    }
}

impl<T, W> AsyncSingleCore<T, W> {
    /// Modifies the data with the access that `guard` gives, and gives the guard back. Where the
    /// modification says so it counts as an update. Returns what it said, and the wakers of those
    /// that the update concerns and that the lock goes to.
    pub fn modify<F: FnOnce(&mut T) -> bool>(&mut self, guard: WriteGuard, f: F) -> (result: (
        bool,
        Vec<W>,
    ))
        requires
            old(self)@.wf(),
            old(self)@.lock == Lock::Writer,
            forall|data: &mut T| *data == old(self)@.data ==> #[trigger] call_requires(f, (data,)),
        ensures
            final(self)@.wf(),
            exists|data: &mut T| #[trigger]
                call_ensures(f, (data,), result.0) && *data == old(self)@.data && *final(data)
                    == final(self)@.data,
            final(self)@ == (SingleState {
                data: final(self)@.data,
                ..if result.0 {
                    old(self)@.updated().handed_over()
                } else {
                    old(self)@.handed_over()
                }
            }),
            result.1@ == if result.0 {
                old(self)@.updated_wakes() + old(self)@.updated().handed_over_to()
            } else {
                old(self)@.handed_over_to()
            },
    {
        let value = &mut self.data;
        let ghost modified = *final(value);
        let changed = f(value);
        assert(self@ == (SingleState { data: modified, ..old(self)@ }));
        let mut woken: Vec<W> = Vec::new();
        if changed {
            woken = AsyncSingleCore::mark_unseen(self);
        }
        let mut rest = guard.drop(self);
        woken.append(&mut rest);
        assert(self@.data == modified);
        (changed, woken)
    }
}

impl<T, W> crate::writer::Shareable for AsyncSingleCore<T, W> {

}

impl<T, W> crate::sensor_core::SensorCore<T> for AsyncSingleCore<T, W> {
    type Waker = W;

    type ReadGuard = ReadGuard;

    type WriteGuard = WriteGuard;

    type Model = SingleState<T, W>;

    open spec fn model(&self) -> SingleState<T, W> {
        self@
    }

    open spec fn fresh(value: T) -> SingleState<T, W> {
        SingleState {
            version: Version(0),
            writers: 1,
            lock: Lock::Readers(0),
            queue: Seq::empty(),
            idle_reads: Seq::empty(),
            waiters: Seq::empty(),
            slots: Seq::empty(),
            data: value,
        }
    }

    open spec fn registered(model: SingleState<T, W>) -> SingleState<T, W> {
        SingleState { writers: model.writers + 1, ..model }
    }

    open spec fn deregistered(model: SingleState<T, W>) -> SingleState<T, W> {
        model.writer_gone()
    }

    open spec fn updated(model: SingleState<T, W>) -> SingleState<T, W> {
        model.updated()
    }

    open spec fn reading(model: SingleState<T, W>) -> SingleState<T, W> {
        model.reader_entered()
    }

    open spec fn written(model: SingleState<T, W>) -> SingleState<T, W> {
        model.writer_entered()
    }

    open spec fn modified(model: SingleState<T, W>, value: T, changed: bool) -> SingleState<
        T,
        W,
    > {
        let written = SingleState { data: value, ..model };
        if changed {
            written.updated().handed_over()
        } else {
            written.handed_over()
        }
    }

    open spec fn wf(&self) -> bool {
        self@.wf()
    }

    open spec fn current(&self) -> Version {
        self@.version
    }

    open spec fn writers(&self) -> nat {
        self@.writers
    }

    open spec fn value(&self) -> T {
        self@.data
    }

    open spec fn can_read(&self) -> bool {
        self@.readable()
    }

    open spec fn can_write(&self) -> bool {
        self@.writable()
    }

    open spec fn writing(&self) -> bool {
        self@.lock == Lock::Writer
    }

    open spec fn update_wakes(&self) -> Seq<W> {
        self@.updated_wakes()
    }

    open spec fn deregister_wakes(&self) -> Seq<W> {
        self@.writer_gone_wakes()
    }

    open spec fn modify_wakes(&self, changed: bool) -> Seq<W> {
        if changed {
            self@.updated_wakes() + self@.updated().handed_over_to()
        } else {
            self@.handed_over_to()
        }
    }

    fn with_value(value: T) -> (core: Self) {
        let core = AsyncSingleCore::new(value);
        assert(core@.updated_wakes() =~= Seq::<W>::empty());
        core
    }

    fn register_writer(&mut self) {
        AsyncSingleCore::register_writer(self)
    }

    fn deregister_writer(&mut self) -> (woken: Vec<W>) {
        AsyncSingleCore::deregister_writer(self)
    }

    fn version(&self) -> (version: Version) {
        AsyncSingleCore::version(self)
    }

    fn mark_unseen(&mut self) -> (woken: Vec<W>) {
        AsyncSingleCore::mark_unseen(self)
    }

    fn try_read(&mut self) -> (guard: Option<ReadGuard>) {
        AsyncSingleCore::try_read(self)
    }

    fn try_write(&mut self) -> (guard: Option<WriteGuard>) {
        AsyncSingleCore::try_write(self)
    }

    fn modify<F: FnOnce(&mut T) -> bool>(&mut self, guard: WriteGuard, f: F) -> (result: (
        bool,
        Vec<W>,
    )) {
        AsyncSingleCore::modify(self, guard, f)
    }
}

} // verus!
