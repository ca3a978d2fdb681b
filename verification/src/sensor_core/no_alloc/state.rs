//! The states of the single-threaded core and what each operation makes of them.

use vstd::prelude::*;

use crate::version::Version;

verus! {

/// The most read guards that can be out at once.
pub const MAX_READERS: usize = usize::MAX - 1;

/// The reader count that stands for an active writer.
pub const WRITER_ACTIVE: usize = usize::MAX;

/// A request that waits in one of the lists of a core.
pub struct Node<W> {
    /// The slot that tells the requesting future how far its request is.
    pub id: usize,
    /// Whether a write guard is requested.
    pub writer: bool,
    /// What wakes the requesting future.
    pub waker: W,
}

/// How far a request is.
#[derive(Clone, Copy, PartialEq, Eq, Structural, Debug)]
pub enum Slot {
    /// No request uses this slot.
    Free,
    /// The request waits in one of the lists.
    Waiting,
    /// The request has been granted and its future woken.
    Ready,
}

/// Who holds the data of a core.
pub enum Lock {
    /// This many readers.
    Readers(nat),
    /// One writer.
    Writer,
}

/// The state of a core.
#[verifier::ext_equal]
pub struct SingleState<T, W> {
    /// The current version.
    pub version: Version,
    /// The number of registered writers.
    pub writers: nat,
    /// Who holds the data.
    pub lock: Lock,
    /// The fair reader-writer queue, first request first.
    pub queue: Seq<Node<W>>,
    /// Reads that wait for a version update, first request first.
    pub idle_reads: Seq<Node<W>>,
    /// Futures that wait for a version update, latest request first.
    pub waiters: Seq<Node<W>>,
    /// How far each request is.
    pub slots: Seq<Slot>,
    /// The sensor value.
    pub data: T,
}

/// The wakers of some requests, in their order.
pub open spec fn wakers<W>(nodes: Seq<Node<W>>) -> Seq<W> {
    nodes.map_values(|node: Node<W>| node.waker)
}

/// Whether one of `nodes` uses slot `id`.
pub open spec fn has_id<W>(nodes: Seq<Node<W>>, id: int) -> bool {
    exists|i: int| 0 <= i < nodes.len() && (#[trigger] nodes[i]).id == id
}

/// Whether no two of `nodes` use the same slot.
pub open spec fn distinct_ids<W>(nodes: Seq<Node<W>>) -> bool {
    forall|i: int, j: int|
        0 <= i < j < nodes.len() ==> (#[trigger] nodes[i]).id != (#[trigger] nodes[j]).id
}

/// Whether no node of `left` uses the slot of a node of `right`.
pub open spec fn disjoint_ids<W>(left: Seq<Node<W>>, right: Seq<Node<W>>) -> bool {
    forall|i: int, j: int|
        0 <= i < left.len() && 0 <= j < right.len() ==> (#[trigger] left[i]).id != (
        #[trigger] right[j]).id
}

/// Whether each of `nodes` has a slot that says that it waits.
pub open spec fn all_waiting<W>(nodes: Seq<Node<W>>, slots: Seq<Slot>) -> bool {
    forall|i: int|
        0 <= i < nodes.len() ==> (#[trigger] nodes[i]).id < slots.len() && slots[nodes[i].id as int]
            == Slot::Waiting
}

/// Whether none of `nodes` requests a write guard.
pub open spec fn all_reads<W>(nodes: Seq<Node<W>>) -> bool {
    forall|i: int| 0 <= i < nodes.len() ==> !(#[trigger] nodes[i]).writer
}

/// The slots after each of `nodes` has been granted.
pub open spec fn granted<W>(slots: Seq<Slot>, nodes: Seq<Node<W>>) -> Seq<Slot> {
    Seq::new(
        slots.len(),
        |i: int|
            if has_id(nodes, i) {
                Slot::Ready
            } else {
                slots[i]
            },
    )
}

/// The nodes that do not use slot `id`, in their order.
pub open spec fn without<W>(nodes: Seq<Node<W>>, id: usize) -> Seq<Node<W>> {
    nodes.filter(|node: Node<W>| node.id != id)
}

/// The number of reads before the first write in a queue.
pub open spec fn leading_reads<W>(queue: Seq<Node<W>>) -> nat
    decreases queue.len(),
{
    if queue.len() == 0 || queue[0].writer {
        0
    } else {
        1 + leading_reads(queue.drop_first())
    }
}

/// The number of requests that a free lock is given to: the write at the front of the queue, or
/// the reads before the first write, as many as can be active at once.
pub open spec fn next_set<W>(queue: Seq<Node<W>>) -> nat {
    if queue.len() > 0 && queue[0].writer {
        1
    } else if leading_reads(queue) > MAX_READERS {
        MAX_READERS as nat
    } else {
        leading_reads(queue)
    }
}

impl<T, W> SingleState<T, W> {
    /// Whether the state is one that a core can be in.
    pub open spec fn wf(self) -> bool {
        &&& all_waiting(self.queue, self.slots)
        &&& all_waiting(self.idle_reads, self.slots)
        &&& all_waiting(self.waiters, self.slots)
        &&& distinct_ids(self.queue)
        &&& distinct_ids(self.idle_reads)
        &&& distinct_ids(self.waiters)
        &&& disjoint_ids(self.queue, self.idle_reads)
        &&& disjoint_ids(self.queue, self.waiters)
        &&& disjoint_ids(self.idle_reads, self.waiters)
        &&& all_reads(self.idle_reads)
        &&& all_reads(self.waiters)
        &&& forall|id: int|
            0 <= id < self.slots.len() && #[trigger] self.slots[id] == Slot::Waiting ==> has_id(
                self.queue,
                id,
            ) || has_id(self.idle_reads, id) || has_id(self.waiters, id)
        &&& self.lock matches Lock::Readers(n) ==> n <= MAX_READERS
        &&& self.queue.len() > 0 ==> self.lock != Lock::Readers(0)
    }

    /// The state after a lock that nobody holds any more has been given to the next set.
    pub open spec fn handed_over(self) -> Self {
        let n = next_set(self.queue);
        SingleState {
            lock: if self.queue.len() > 0 && self.queue[0].writer {
                Lock::Writer
            } else {
                Lock::Readers(n)
            },
            queue: self.queue.skip(n as int),
            slots: granted(self.slots, self.queue.take(n as int)),
            ..self
        }
    }

    /// The wakers of the next set.
    pub open spec fn handed_over_to(self) -> Seq<W> {
        wakers(self.queue.take(next_set(self.queue) as int))
    }

    /// Whether another reader is let in at once.
    pub open spec fn readable(self) -> bool {
        self.queue.len() == 0 && (self.lock matches Lock::Readers(n) && n < MAX_READERS)
    }

    /// Whether a writer is let in at once.
    pub open spec fn writable(self) -> bool {
        self.queue.len() == 0 && self.lock == Lock::Readers(0)
    }

    /// The state with one more reader.
    pub open spec fn reader_entered(self) -> Self {
        SingleState {
            lock: match self.lock {
                Lock::Readers(n) => Lock::Readers(n + 1),
                Lock::Writer => Lock::Writer,
            },
            ..self
        }
    }

    /// The state with an active writer.
    pub open spec fn writer_entered(self) -> Self {
        SingleState { lock: Lock::Writer, ..self }
    }

    /// The state after one reader has left. The last one hands the lock over.
    pub open spec fn reader_left(self) -> Self {
        match self.lock {
            Lock::Readers(n) if n > 1 => SingleState {
                lock: Lock::Readers((n - 1) as nat),
                ..self
            },
            _ => self.handed_over(),
        }
    }

    /// Who is woken when one reader leaves.
    pub open spec fn reader_left_wakes(self) -> Seq<W> {
        match self.lock {
            Lock::Readers(n) if n > 1 => Seq::empty(),
            _ => self.handed_over_to(),
        }
    }

    /// How many idle reads are let in when they are released: none while anyone is queued or a writer is
    /// active, else as many as can be active.
    pub open spec fn admitted(self) -> nat {
        match self.lock {
            Lock::Readers(n) if self.queue.len() == 0 => if n + self.idle_reads.len()
                <= MAX_READERS {
                self.idle_reads.len()
            } else {
                (MAX_READERS - n) as nat
            },
            _ => 0,
        }
    }

    /// The state after those that wait for a version have been released: idle reads are let in or
    /// queued, and waiters are ready.
    pub open spec fn released(self) -> Self {
        let n = self.admitted() as int;
        SingleState {
            lock: match self.lock {
                Lock::Readers(readers) => Lock::Readers((readers + n) as nat),
                Lock::Writer => Lock::Writer,
            },
            queue: self.queue + self.idle_reads.skip(n),
            idle_reads: Seq::empty(),
            waiters: Seq::empty(),
            slots: granted(granted(self.slots, self.idle_reads.take(n)), self.waiters),
            ..self
        }
    }

    /// The state after an update, which releases those that wait for a version.
    pub open spec fn updated(self) -> Self {
        SingleState { version: self.version.next(), ..self.released() }
    }

    /// Who is woken by an update, in order.
    pub open spec fn updated_wakes(self) -> Seq<W> {
        wakers(self.idle_reads.take(self.admitted() as int)) + wakers(self.waiters)
    }

    /// The state after a writer has gone. The last one closes the sensor, which releases those
    /// that wait for a version.
    pub open spec fn writer_gone(self) -> Self {
        if self.writers == 1 {
            SingleState { writers: 0, version: self.version.closing(), ..self.released() }
        } else {
            SingleState { writers: (self.writers - 1) as nat, ..self }
        }
    }

    /// Who is woken when a writer goes, in order.
    pub open spec fn writer_gone_wakes(self) -> Seq<W> {
        if self.writers == 1 {
            self.updated_wakes()
        } else {
            Seq::empty()
        }
    }

    /// Whether slot `id` can be given to a new request.
    pub open spec fn vacant(self, id: usize) -> bool {
        id == self.slots.len() || (id < self.slots.len() && self.slots[id as int] == Slot::Free)
    }

    /// Whether slot `id` belongs to a request.
    pub open spec fn live(self, id: usize) -> bool {
        id < self.slots.len() && self.slots[id as int] != Slot::Free
    }

    /// The slots after `id` has been given to a request that waits.
    pub open spec fn occupied(self, id: usize) -> Seq<Slot> {
        if id < self.slots.len() {
            self.slots.update(id as int, Slot::Waiting)
        } else {
            self.slots.push(Slot::Waiting)
        }
    }

    /// The state with a request at the end of the reader-writer queue.
    pub open spec fn queued(self, id: usize, writer: bool, waker: W) -> Self {
        SingleState {
            queue: self.queue.push(Node { id, writer, waker }),
            slots: self.occupied(id),
            ..self
        }
    }

    /// The state with a read at the end of the idle reads.
    pub open spec fn idled(self, id: usize, waker: W) -> Self {
        SingleState {
            idle_reads: self.idle_reads.push(Node { id, writer: false, waker }),
            slots: self.occupied(id),
            ..self
        }
    }

    /// The state with a waiter in front of the other waiters.
    pub open spec fn awaited(self, id: usize, waker: W) -> Self {
        SingleState {
            waiters: seq![Node { id, writer: false, waker }] + self.waiters,
            slots: self.occupied(id),
            ..self
        }
    }

    /// The state after the request of slot `id` has been taken back.
    pub open spec fn withdrawn(self, id: usize) -> Self {
        SingleState {
            queue: without(self.queue, id),
            idle_reads: without(self.idle_reads, id),
            waiters: without(self.waiters, id),
            slots: self.slots.update(id as int, Slot::Free),
            ..self
        }
    }
}

pub(crate) proof fn lemma_leading_reads_bound<W>(queue: Seq<Node<W>>)
    ensures
        leading_reads(queue) <= queue.len(),
    decreases queue.len(),
{
    if queue.len() > 0 && !queue[0].writer {
        lemma_leading_reads_bound(queue.drop_first());
    }
}

pub(crate) proof fn lemma_granted_step<W>(slots: Seq<Slot>, nodes: Seq<Node<W>>, k: int)
    requires
        0 <= k < nodes.len(),
        nodes[k].id < slots.len(),
    ensures
        granted(slots, nodes.take(k + 1)) == granted(slots, nodes.take(k)).update(
            nodes[k].id as int,
            Slot::Ready,
        ),
{
    let before = nodes.take(k);
    let after = nodes.take(k + 1);
    assert forall|i: int| 0 <= i < slots.len() implies #[trigger] granted(slots, after)[i] == granted(
        slots,
        before,
    ).update(nodes[k].id as int, Slot::Ready)[i] by {
        if has_id(before, i) {
            let j = choose|j: int| 0 <= j < before.len() && (#[trigger] before[j]).id == i;
            assert(after[j].id == i);
        }
        if has_id(after, i) {
            let j = choose|j: int| 0 <= j < after.len() && (#[trigger] after[j]).id == i;
            if j < k {
                assert(before[j].id == i);
            }
        }
        assert(after[k].id == nodes[k].id);
    }
    assert(granted(slots, after) =~= granted(slots, before).update(
        nodes[k].id as int,
        Slot::Ready,
    ));
}

pub(crate) proof fn lemma_granted_none<W>(slots: Seq<Slot>, nodes: Seq<Node<W>>)
    ensures
        granted(slots, nodes.take(0)) == slots,
{
    assert(granted(slots, nodes.take(0)) =~= slots);
}

/// Giving the front of the queue its grants leaves the rest of the state well formed.
pub(crate) proof fn lemma_handed_over_wf<T, W>(state: SingleState<T, W>)
    requires
        state.wf(),
    ensures
        state.handed_over().wf(),
{
    lemma_leading_reads_bound(state.queue);
    let n = next_set(state.queue) as int;
    let taken = state.queue.take(n);
    let rest = state.queue.skip(n);
    let after = state.handed_over();
    if state.queue.len() > 0 && !state.queue[0].writer {
        assert(leading_reads(state.queue) >= 1);
    }
    assert forall|i: int| 0 <= i < rest.len() implies (#[trigger] rest[i]).id < after.slots.len()
        && after.slots[rest[i].id as int] == Slot::Waiting by {
        assert(rest[i] == state.queue[i + n]);
        if has_id(taken, rest[i].id as int) {
            let j = choose|j: int| 0 <= j < taken.len() && (#[trigger] taken[j]).id == rest[i].id;
            assert(taken[j] == state.queue[j]);
        }
    }
    assert forall|i: int| 0 <= i < state.idle_reads.len() implies after.slots[(
    #[trigger] state.idle_reads[i]).id as int] == Slot::Waiting by {
        if has_id(taken, state.idle_reads[i].id as int) {
            let j = choose|j: int|
                0 <= j < taken.len() && (#[trigger] taken[j]).id == state.idle_reads[i].id;
            assert(taken[j] == state.queue[j]);
        }
    }
    assert forall|i: int| 0 <= i < state.waiters.len() implies after.slots[(
    #[trigger] state.waiters[i]).id as int] == Slot::Waiting by {
        if has_id(taken, state.waiters[i].id as int) {
            let j = choose|j: int|
                0 <= j < taken.len() && (#[trigger] taken[j]).id == state.waiters[i].id;
            assert(taken[j] == state.queue[j]);
        }
    }
    assert forall|id: int|
        0 <= id < after.slots.len() && #[trigger] after.slots[id] == Slot::Waiting implies has_id(
        after.queue,
        id,
    ) || has_id(after.idle_reads, id) || has_id(after.waiters, id) by {
        assert(state.slots[id] == Slot::Waiting);
        if has_id(state.queue, id) {
            let j = choose|j: int|
                0 <= j < state.queue.len() && (#[trigger] state.queue[j]).id == id;
            if j < n {
                assert(taken[j].id == id);
            } else {
                assert(rest[j - n].id == id);
            }
        }
    }
}

pub(crate) proof fn lemma_released_wf<T, W>(state: SingleState<T, W>)
    requires
        state.wf(),
    ensures
        state.released().wf(),
{
    let n = state.admitted() as int;
    let taken = state.idle_reads.take(n);
    let rest = state.idle_reads.skip(n);
    let after = state.released();
    let middle = granted(state.slots, taken);
    assert forall|i: int| 0 <= i < after.queue.len() implies (#[trigger] after.queue[i]).id
        < after.slots.len() && after.slots[after.queue[i].id as int] == Slot::Waiting by {
        let id = after.queue[i].id as int;
        if i < state.queue.len() {
            assert(after.queue[i] == state.queue[i]);
        } else {
            assert(after.queue[i] == state.idle_reads[i - state.queue.len() + n]);
        }
        if has_id(taken, id) {
            let j = choose|j: int| 0 <= j < taken.len() && (#[trigger] taken[j]).id == id;
            assert(taken[j] == state.idle_reads[j]);
        }
        if has_id(state.waiters, id) {
            let j = choose|j: int|
                0 <= j < state.waiters.len() && (#[trigger] state.waiters[j]).id == id;
        }
    }
    assert forall|i: int, j: int| 0 <= i < j < after.queue.len() implies (
    #[trigger] after.queue[i]).id != (#[trigger] after.queue[j]).id by {
        let len = state.queue.len() as int;
        if j < len {
        } else if i < len {
            assert(after.queue[j] == state.idle_reads[j - len + n]);
            assert(after.queue[i] == state.queue[i]);
        } else {
            assert(after.queue[i] == state.idle_reads[i - len + n]);
            assert(after.queue[j] == state.idle_reads[j - len + n]);
        }
    }
    assert forall|id: int|
        0 <= id < after.slots.len() && #[trigger] after.slots[id] == Slot::Waiting implies has_id(
        after.queue,
        id,
    ) by {
        assert(middle[id] == Slot::Waiting);
        assert(state.slots[id] == Slot::Waiting);
        if has_id(state.queue, id) {
            let j = choose|j: int|
                0 <= j < state.queue.len() && (#[trigger] state.queue[j]).id == id;
            assert(after.queue[j] == state.queue[j]);
        } else {
            assert(has_id(state.idle_reads, id));
            let j = choose|j: int|
                0 <= j < state.idle_reads.len() && (#[trigger] state.idle_reads[j]).id == id;
            if j < n {
                assert(taken[j].id == id);
            } else {
                assert(after.queue[state.queue.len() + (j - n)] == state.idle_reads[j]);
            }
        }
    }
}

pub(crate) proof fn lemma_occupied_wf<T, W>(state: SingleState<T, W>, id: usize, waker: W)
    requires
        state.wf(),
        state.vacant(id),
    ensures
        state.idled(id, waker).wf(),
        state.awaited(id, waker).wf(),
        state.lock != Lock::Readers(0) ==> state.queued(id, true, waker).wf()
            && state.queued(id, false, waker).wf(),
{
    let slots = state.occupied(id);
    let queue_writer = state.queue.push(Node { id, writer: true, waker });
    let queue_reader = state.queue.push(Node { id, writer: false, waker });
    let idle = state.idle_reads.push(Node { id, writer: false, waker });
    let waiters = seq![Node { id, writer: false, waker }] + state.waiters;
    assert(queue_writer[queue_writer.len() - 1].id == id);
    assert(queue_reader[queue_reader.len() - 1].id == id);
    assert(idle[idle.len() - 1].id == id);
    assert(waiters[0].id == id);
    assert forall|other: int|
        0 <= other < slots.len() && #[trigger] slots[other] == Slot::Waiting && other
            != id implies state.slots[other] == Slot::Waiting by {}
    assert forall|other: int| has_id(state.queue, other) implies has_id(queue_writer, other)
        && has_id(queue_reader, other) by {
        let j = choose|j: int|
            0 <= j < state.queue.len() && (#[trigger] state.queue[j]).id == other;
        assert(queue_writer[j].id == other);
        assert(queue_reader[j].id == other);
    }
    assert forall|other: int| has_id(state.idle_reads, other) implies has_id(idle, other) by {
        let j = choose|j: int|
            0 <= j < state.idle_reads.len() && (#[trigger] state.idle_reads[j]).id == other;
        assert(idle[j].id == other);
    }
    assert forall|other: int| has_id(state.waiters, other) implies has_id(waiters, other) by {
        let j = choose|j: int|
            0 <= j < state.waiters.len() && (#[trigger] state.waiters[j]).id == other;
        assert(waiters[j + 1].id == other);
    }
    assert forall|i: int, j: int| 0 <= i < j < waiters.len() implies (#[trigger] waiters[i]).id != (
    #[trigger] waiters[j]).id by {
        assert(waiters[j] == state.waiters[j - 1]);
        if i > 0 {
            assert(waiters[i] == state.waiters[i - 1]);
        }
    }
    assert forall|i: int| 0 <= i < waiters.len() implies (#[trigger] waiters[i]).id < slots.len()
        && slots[waiters[i].id as int] == Slot::Waiting && !waiters[i].writer by {
        if i > 0 {
            assert(waiters[i] == state.waiters[i - 1]);
        }
    }
    assert(disjoint_ids(state.queue, waiters)) by {
        assert forall|i: int, j: int|
            0 <= i < state.queue.len() && 0 <= j < waiters.len() implies (
        #[trigger] state.queue[i]).id != (#[trigger] waiters[j]).id by {
            if j > 0 {
                assert(waiters[j] == state.waiters[j - 1]);
            }
        }
    }
    assert(disjoint_ids(state.idle_reads, waiters)) by {
        assert forall|i: int, j: int|
            0 <= i < state.idle_reads.len() && 0 <= j < waiters.len() implies (
        #[trigger] state.idle_reads[i]).id != (#[trigger] waiters[j]).id by {
            if j > 0 {
                assert(waiters[j] == state.waiters[j - 1]);
            }
        }
    }
}

/// `without`, one node at a time.
pub(crate) proof fn lemma_without_step<W>(nodes: Seq<Node<W>>, id: usize)
    ensures
        nodes.len() == 0 ==> without(nodes, id) == Seq::<Node<W>>::empty(),
        nodes.len() > 0 ==> without(nodes, id) == if nodes.last().id != id {
            without(nodes.drop_last(), id).push(nodes.last())
        } else {
            without(nodes.drop_last(), id)
        },
{
    reveal(Seq::filter);
    if nodes.len() == 0 {
        assert(without(nodes, id) =~= Seq::<Node<W>>::empty());
    }
}

/// What `without` keeps: exactly the nodes of other slots, in their order.
pub(crate) proof fn lemma_without<W>(nodes: Seq<Node<W>>, id: usize)
    ensures
        without(nodes, id).len() <= nodes.len(),
        forall|i: int|
            0 <= i < without(nodes, id).len() ==> (#[trigger] without(nodes, id)[i]).id != id
                && nodes.contains(without(nodes, id)[i]),
        forall|other: int|
            other != id ==> has_id(without(nodes, id), other) == #[trigger] has_id(nodes, other),
        distinct_ids(nodes) ==> distinct_ids(without(nodes, id)),
        !has_id(nodes, id as int) ==> without(nodes, id) == nodes,
    decreases nodes.len(),
{
    lemma_without_step(nodes, id);
    if nodes.len() > 0 {
        let front = nodes.drop_last();
        let last = nodes.last();
        lemma_without(front, id);
        let kept = without(front, id);
        let all = without(nodes, id);
        assert forall|i: int| 0 <= i < all.len() implies (#[trigger] all[i]).id != id
            && nodes.contains(all[i]) by {
            if i < kept.len() {
                assert(all[i] == kept[i]);
                let j = choose|j: int| 0 <= j < front.len() && front[j] == kept[i];
                assert(nodes[j] == all[i]);
            } else {
                assert(nodes[nodes.len() - 1] == all[i]);
            }
        }
        assert forall|other: int| other != id implies has_id(all, other) == #[trigger] has_id(
            nodes,
            other,
        ) by {
            if has_id(nodes, other) {
                let j = choose|j: int| 0 <= j < nodes.len() && (#[trigger] nodes[j]).id == other;
                if j < front.len() {
                    assert(front[j].id == other);
                    assert(has_id(front, other));
                    let m = choose|m: int| 0 <= m < kept.len() && (#[trigger] kept[m]).id == other;
                    assert(all[m].id == other);
                } else {
                    assert(all[all.len() - 1].id == other);
                }
            }
            if has_id(all, other) {
                let m = choose|m: int| 0 <= m < all.len() && (#[trigger] all[m]).id == other;
                let j = choose|j: int| 0 <= j < nodes.len() && nodes[j] == all[m];
                assert(nodes[j].id == other);
            }
        }
        if distinct_ids(nodes) {
            assert(distinct_ids(front)) by {
                assert forall|i: int, j: int| 0 <= i < j < front.len() implies (
                #[trigger] front[i]).id != (#[trigger] front[j]).id by {
                    assert(nodes[i] == front[i] && nodes[j] == front[j]);
                }
            }
            assert forall|i: int, j: int| 0 <= i < j < all.len() implies (#[trigger] all[i]).id != (
            #[trigger] all[j]).id by {
                assert(all[i] == kept[i]);
                if j < kept.len() {
                    assert(all[j] == kept[j]);
                } else {
                    let m = choose|m: int| 0 <= m < front.len() && front[m] == kept[i];
                    assert(nodes[m] == kept[i]);
                    assert(nodes[nodes.len() - 1] == all[j]);
                }
            }
        }
        if !has_id(nodes, id as int) {
            assert(nodes[nodes.len() - 1].id != id);
            if has_id(front, id as int) {
                let j = choose|j: int| 0 <= j < front.len() && (#[trigger] front[j]).id == id;
                assert(nodes[j].id == id);
            }
            assert(all =~= nodes);
        }
    } else {
        assert(without(nodes, id) =~= nodes);
    }
}

pub(crate) proof fn lemma_withdrawn_wf<T, W>(state: SingleState<T, W>, id: usize)
    requires
        state.wf(),
        id < state.slots.len(),
    ensures
        state.withdrawn(id).wf(),
{
    let after = state.withdrawn(id);
    lemma_without(state.queue, id);
    lemma_without(state.idle_reads, id);
    lemma_without(state.waiters, id);
    assert forall|i: int| 0 <= i < after.queue.len() implies state.queue.contains(
        #[trigger] after.queue[i],
    ) by {}
    assert forall|i: int| 0 <= i < after.idle_reads.len() implies state.idle_reads.contains(
        #[trigger] after.idle_reads[i],
    ) by {}
    assert forall|i: int| 0 <= i < after.waiters.len() implies state.waiters.contains(
        #[trigger] after.waiters[i],
    ) by {}
    assert forall|other: int|
        0 <= other < after.slots.len() && #[trigger] after.slots[other]
            == Slot::Waiting implies has_id(after.queue, other) || has_id(after.idle_reads, other)
        || has_id(after.waiters, other) by {
        assert(state.slots[other] == Slot::Waiting);
        assert(has_id(after.queue, other) == has_id(state.queue, other));
        assert(has_id(after.idle_reads, other) == has_id(state.idle_reads, other));
        assert(has_id(after.waiters, other) == has_id(state.waiters, other));
    }
}

} // verus!
