//! What each operation of the single-threaded core does to the parts of its state.

use vstd::prelude::*;

use crate::sensor_core::SensorCore;
use crate::version::Version;

use super::futures::Progress;
use super::state;
use super::state::{Lock, Node, SingleState, Slot, MAX_READERS};
use super::AsyncSingleCore;

verus! {

/// A reader that leaves while others are active only lowers their number: nobody is let in, the
/// queue and the slots stay as they are, and nobody is woken.
pub proof fn a_reader_leaves_the_others_in<T, W>(core: SingleState<T, W>, readers: nat)
    requires
        core.lock == Lock::Readers(readers),
        readers > 1,
    ensures
        core.reader_left().lock == Lock::Readers((readers - 1) as nat),
        core.reader_left().queue == core.queue,
        core.reader_left().slots == core.slots,
        core.reader_left().idle_reads == core.idle_reads,
        core.reader_left().waiters == core.waiters,
        core.reader_left().version == core.version,
        core.reader_left().writers == core.writers,
        core.reader_left().data == core.data,
        core.reader_left_wakes().len() == 0,
{
}

/// While more than one reader is active, no operation lets a writer in, and none but the leaving of
/// a reader lowers the number of readers.
pub proof fn readers_are_never_joined_by_a_writer<T, W>(
    core: SingleState<T, W>,
    readers: nat,
    id: usize,
    writer: bool,
    waker: W,
)
    requires
        core.wf(),
        core.lock == Lock::Readers(readers),
        readers > 1,
    ensures
        !core.writable(),
        core.reader_left().lock is Readers,
        core.reader_entered().lock == Lock::Readers(readers + 1),
        core.updated().lock matches Lock::Readers(after) && after >= readers,
        core.writer_gone().lock matches Lock::Readers(after) && after >= readers,
        core.queued(id, writer, waker).lock == core.lock,
        core.idled(id, waker).lock == core.lock,
        core.awaited(id, waker).lock == core.lock,
        core.withdrawn(id).lock == core.lock,
{
}

/// While a writer is active, no operation but its own end lets anybody else in or takes the lock
/// from it.
pub proof fn a_writer_keeps_the_lock<T, W>(
    core: SingleState<T, W>,
    id: usize,
    writer: bool,
    waker: W,
)
    requires
        core.lock == Lock::Writer,
    ensures
        !core.readable(),
        !core.writable(),
        core.updated().lock == Lock::Writer,
        core.writer_gone().lock == Lock::Writer,
        core.queued(id, writer, waker).lock == Lock::Writer,
        core.idled(id, waker).lock == Lock::Writer,
        core.awaited(id, waker).lock == Lock::Writer,
        core.withdrawn(id).lock == Lock::Writer,
{
}

/// A reader is let in at once exactly if nobody is queued, no writer is active, and one more can be
/// counted; a writer exactly if nobody is queued or active. Being let in changes only the lock.
pub proof fn who_is_let_in<T, W>(core: SingleState<T, W>)
    ensures
        core.readable() <==> core.queue.len() == 0 && core.lock is Readers && core.lock->Readers_0
            < MAX_READERS,
        core.writable() <==> core.queue.len() == 0 && core.lock is Readers && core.lock->Readers_0
            == 0,
        core.readable() ==> core.reader_entered() == (SingleState {
            lock: Lock::Readers(core.lock->Readers_0 + 1),
            ..core
        }),
        core.writer_entered() == (SingleState { lock: Lock::Writer, ..core }),
{
}

/// What is left of a core that nobody holds any more with nobody queued: nobody holds the lock,
/// nothing else changes, and nobody is woken.
pub proof fn a_free_lock_with_an_empty_queue_stays_free<T, W>(core: SingleState<T, W>)
    requires
        core.queue.len() == 0,
    ensures
        core.handed_over() == (SingleState { lock: Lock::Readers(0), ..core }),
        core.handed_over_to().len() == 0,
{
    state::lemma_granted_none(core.slots, core.queue);
    assert(core.queue.skip(0) =~= core.queue);
    assert(core.queue.take(0) =~= core.queue);
    assert(core.handed_over() =~= SingleState { lock: Lock::Readers(0), ..core });
}

/// A free lock whose queue begins with a write goes to that write alone: it leaves the queue, its
/// slot becomes ready, it is the only one that is woken, and all others wait as before.
pub proof fn a_free_lock_goes_to_the_first_write<T, W>(core: SingleState<T, W>)
    requires
        core.wf(),
        core.queue.len() > 0,
        core.queue[0].writer,
    ensures
        core.handed_over() == (SingleState {
            lock: Lock::Writer,
            queue: core.queue.drop_first(),
            slots: core.slots.update(core.queue[0].id as int, Slot::Ready),
            ..core
        }),
        core.handed_over_to() == seq![core.queue[0].waker],
{
    let taken = core.queue.take(1);
    assert(core.queue.skip(1) =~= core.queue.drop_first());
    assert(taken[0] == core.queue[0]);
    assert(core.handed_over_to() =~= seq![core.queue[0].waker]);
    assert forall|i: int| 0 <= i < core.slots.len() implies #[trigger] core.handed_over().slots[i]
        == core.slots.update(core.queue[0].id as int, Slot::Ready)[i] by {
        if i == core.queue[0].id {
            assert(taken[0].id == i);
            assert(state::has_id(taken, i));
        } else if state::has_id(taken, i) {
            let j = choose|j: int| 0 <= j < taken.len() && (#[trigger] taken[j]).id == i;
            assert(j == 0);
        }
    }
    assert(core.handed_over().slots =~= core.slots.update(core.queue[0].id as int, Slot::Ready));
}

/// A free lock whose queue begins with a read goes to the reads before the first write, as many as
/// can be counted: they leave the queue, their slots become ready, they are woken in their order,
/// and all others wait as before.
pub proof fn a_free_lock_goes_to_the_first_reads<T, W>(core: SingleState<T, W>)
    requires
        core.wf(),
        core.queue.len() > 0,
        !core.queue[0].writer,
    ensures
        ({
            let after = core.handed_over();
            let woken = core.handed_over_to();
            let n = woken.len() as int;
            &&& 1 <= n <= core.queue.len()
            &&& after.lock == Lock::Readers(n as nat)
            &&& forall|i: int| 0 <= i < n ==> !(#[trigger] core.queue[i]).writer
            &&& n == core.queue.len() || n == MAX_READERS || core.queue[n].writer
            &&& forall|i: int| 0 <= i < n ==> #[trigger] woken[i] == core.queue[i].waker
            &&& after.queue == core.queue.subrange(n, core.queue.len() as int)
            &&& after.slots.len() == core.slots.len()
            &&& forall|i: int|
                0 <= i < n ==> after.slots[(#[trigger] core.queue[i]).id as int] == Slot::Ready
            &&& forall|id: int|
                0 <= id < core.slots.len() && (forall|i: int|
                    0 <= i < n ==> (#[trigger] core.queue[i]).id != id) ==> #[trigger] after.slots[id]
                    == core.slots[id]
            &&& after.idle_reads == core.idle_reads
            &&& after.waiters == core.waiters
            &&& after.version == core.version
            &&& after.writers == core.writers
            &&& after.data == core.data
        }),
{
    let n = state::next_set(core.queue) as int;
    lemma_leading_reads(core.queue);
    let taken = core.queue.take(n);
    assert(core.queue.skip(n) =~= core.queue.subrange(n, core.queue.len() as int));
    assert forall|i: int| 0 <= i < n implies core.handed_over().slots[(
    #[trigger] core.queue[i]).id as int] == Slot::Ready by {
        assert(taken[i].id == core.queue[i].id);
        assert(state::has_id(taken, core.queue[i].id as int));
    }
    assert forall|id: int|
        0 <= id < core.slots.len() && (forall|i: int|
            0 <= i < n ==> (#[trigger] core.queue[i]).id != id) implies #[trigger] core.handed_over().slots[id]
        == core.slots[id] by {
        if state::has_id(taken, id) {
            let j = choose|j: int| 0 <= j < taken.len() && (#[trigger] taken[j]).id == id;
            assert(core.queue[j].id == id);
        }
    }
}

proof fn lemma_leading_reads<W>(queue: Seq<Node<W>>)
    ensures
        state::leading_reads(queue) <= queue.len(),
        forall|i: int| 0 <= i < state::leading_reads(queue) ==> !(#[trigger] queue[i]).writer,
        state::leading_reads(queue) < queue.len() ==> queue[state::leading_reads(
            queue,
        ) as int].writer,
    decreases queue.len(),
{
    if queue.len() > 0 && !queue[0].writer {
        let rest = queue.drop_first();
        lemma_leading_reads(rest);
        assert forall|i: int| 0 <= i < state::leading_reads(queue) implies !(
        #[trigger] queue[i]).writer by {
            if i > 0 {
                assert(rest[i - 1] == queue[i]);
            }
        }
        if state::leading_reads(queue) < queue.len() {
            assert(rest[state::leading_reads(rest) as int] == queue[state::leading_reads(
                queue,
            ) as int]);
        }
    }
}

/// The last reader to leave gives the lock on as an ended writer does.
pub proof fn the_last_reader_frees_the_lock<T, W>(core: SingleState<T, W>)
    requires
        core.lock == Lock::Readers(1),
    ensures
        core.reader_left() == core.handed_over(),
        core.reader_left_wakes() == core.handed_over_to(),
{
}

/// How many idle reads an update lets in: none while a writer is active or anybody is queued, else
/// all that can be counted.
pub proof fn idle_reads_are_let_in_while_the_lock_allows<T, W>(core: SingleState<T, W>)
    requires
        core.wf(),
    ensures
        core.lock == Lock::Writer || core.queue.len() > 0 ==> core.admitted() == 0,
        core.lock is Readers && core.queue.len() == 0 ==> core.admitted() == if core.lock->Readers_0
            + core.idle_reads.len() <= MAX_READERS {
            core.idle_reads.len() as int
        } else {
            MAX_READERS - core.lock->Readers_0
        },
        core.admitted() <= core.idle_reads.len(),
{
}

/// Whom an update wakes: the idle reads that it lets in, first come first, and then every waiter,
/// latest first, each of them once.
pub proof fn an_update_wakes_everyone_that_it_readies<T, W>(core: SingleState<T, W>)
    requires
        core.wf(),
    ensures
        core.updated_wakes().len() == core.admitted() + core.waiters.len(),
        forall|i: int|
            0 <= i < core.admitted() ==> #[trigger] core.updated_wakes()[i]
                == core.idle_reads[i].waker,
        forall|i: int|
            0 <= i < core.waiters.len() ==> core.updated_wakes()[core.admitted() + i] == (
            #[trigger] core.waiters[i]).waker,
        forall|i: int|
            0 <= i < core.waiters.len() ==> core.updated_wakes().contains(
                (#[trigger] core.waiters[i]).waker,
            ),
{
    assert forall|i: int| 0 <= i < core.waiters.len() implies core.updated_wakes()[core.admitted()
        + i] == (#[trigger] core.waiters[i]).waker && core.updated_wakes().contains(
        core.waiters[i].waker,
    ) by {
        assert(core.updated_wakes()[core.admitted() + i] == core.waiters[i].waker);
    }
}

/// What an update does: it counts one version, readies the idle reads that it lets in and every
/// waiter, and puts the other idle reads behind those that are queued; nothing else changes.
pub proof fn an_update_readies_or_queues<T, W>(core: SingleState<T, W>)
    requires
        core.wf(),
    ensures
        ({
            let after = core.updated();
            let n = core.admitted() as int;
            let rest = core.idle_reads.subrange(n, core.idle_reads.len() as int);
            &&& after.version == core.version.next()
            &&& after.writers == core.writers
            &&& after.data == core.data
            &&& after.lock == match core.lock {
                Lock::Readers(readers) => Lock::Readers((readers + n) as nat),
                Lock::Writer => Lock::Writer,
            }
            &&& after.queue == core.queue + rest
            &&& after.idle_reads.len() == 0
            &&& after.waiters.len() == 0
            &&& readied(core, after, n)
        }),
{
    lemma_readied(core);
    let n = core.admitted() as int;
    assert(core.idle_reads.skip(n) =~= core.idle_reads.subrange(n, core.idle_reads.len() as int));
}

/// Whether the slots of the first `n` idle reads and of all waiters have become ready from `before`
/// to `after`, and all other slots are as they were.
pub open spec fn readied<T, W>(
    before: SingleState<T, W>,
    after: SingleState<T, W>,
    n: int,
) -> bool {
    &&& after.slots.len() == before.slots.len()
    &&& forall|i: int|
        0 <= i < n ==> after.slots[(#[trigger] before.idle_reads[i]).id as int] == Slot::Ready
    &&& forall|i: int|
        0 <= i < before.waiters.len() ==> after.slots[(#[trigger] before.waiters[i]).id as int]
            == Slot::Ready
    &&& forall|id: int|
        0 <= id < before.slots.len() && (forall|i: int|
            0 <= i < n ==> (#[trigger] before.idle_reads[i]).id != id) && (forall|i: int|
            0 <= i < before.waiters.len() ==> (#[trigger] before.waiters[i]).id != id)
            ==> #[trigger] after.slots[id] == before.slots[id]
}

proof fn lemma_readied<T, W>(core: SingleState<T, W>)
    requires
        core.wf(),
    ensures
        readied(core, core.released(), core.admitted() as int),
{
    let n = core.admitted() as int;
    let taken = core.idle_reads.take(n);
    let after = core.released();
    assert forall|i: int| 0 <= i < n implies after.slots[(
    #[trigger] core.idle_reads[i]).id as int] == Slot::Ready by {
        assert(taken[i].id == core.idle_reads[i].id);
        assert(state::has_id(taken, core.idle_reads[i].id as int));
    }
    assert forall|i: int| 0 <= i < core.waiters.len() implies after.slots[(
    #[trigger] core.waiters[i]).id as int] == Slot::Ready by {
        assert(state::has_id(core.waiters, core.waiters[i].id as int));
    }
    assert forall|id: int|
        0 <= id < core.slots.len() && (forall|i: int|
            0 <= i < n ==> (#[trigger] core.idle_reads[i]).id != id) && (forall|i: int|
            0 <= i < core.waiters.len() ==> (#[trigger] core.waiters[i]).id
                != id) implies #[trigger] after.slots[id] == core.slots[id] by {
        if state::has_id(taken, id) {
            let j = choose|j: int| 0 <= j < taken.len() && (#[trigger] taken[j]).id == id;
            assert(core.idle_reads[j].id == id);
        }
        if state::has_id(core.waiters, id) {
            let j = choose|j: int|
                0 <= j < core.waiters.len() && (#[trigger] core.waiters[j]).id == id;
        }
    }
}

/// A writer that goes beside others is only counted off. The last one closes the sensor and readies
/// and wakes whom an update would have readied and woken.
pub proof fn only_the_last_writer_changes_more_than_the_count<T, W>(core: SingleState<T, W>)
    requires
        core.wf(),
        core.writers > 0,
    ensures
        core.writers > 1 ==> core.writer_gone() == (SingleState {
            writers: (core.writers - 1) as nat,
            ..core
        }) && core.writer_gone_wakes().len() == 0,
        core.writers == 1 ==> {
            let after = core.writer_gone();
            let n = core.admitted() as int;
            let rest = core.idle_reads.subrange(n, core.idle_reads.len() as int);
            &&& after.writers == 0
            &&& after.version == core.version.closing()
            &&& after.data == core.data
            &&& after.lock == match core.lock {
                Lock::Readers(readers) => Lock::Readers((readers + n) as nat),
                Lock::Writer => Lock::Writer,
            }
            &&& after.queue == core.queue + rest
            &&& after.idle_reads.len() == 0
            &&& after.waiters.len() == 0
            &&& readied(core, after, n)
            &&& core.writer_gone_wakes() == core.updated_wakes()
        },
{
    lemma_readied(core);
    let n = core.admitted() as int;
    assert(core.idle_reads.skip(n) =~= core.idle_reads.subrange(n, core.idle_reads.len() as int));
}

/// A request that is registered comes last in its list, a waiter first; its slot waits, and no
/// other request, slot or part of the core changes.
pub proof fn a_registration_adds_one_request<T, W>(
    core: SingleState<T, W>,
    id: usize,
    writer: bool,
    waker: W,
)
    requires
        core.vacant(id),
    ensures
        ({
            let slots = if id < core.slots.len() {
                core.slots.update(id as int, Slot::Waiting)
            } else {
                core.slots.push(Slot::Waiting)
            };
            &&& id == core.slots.len() || core.slots[id as int] == Slot::Free
            &&& core.queued(id, writer, waker) == (SingleState {
                queue: core.queue + seq![Node { id, writer, waker }],
                slots,
                ..core
            })
            &&& core.idled(id, waker) == (SingleState {
                idle_reads: core.idle_reads + seq![Node { id, writer: false, waker }],
                slots,
                ..core
            })
            &&& core.awaited(id, waker) == (SingleState {
                waiters: seq![Node { id, writer: false, waker }] + core.waiters,
                slots,
                ..core
            })
        }),
{
    assert(core.queue.push(Node { id, writer, waker }) =~= core.queue + seq![
        Node { id, writer, waker },
    ]);
    assert(core.idle_reads.push(Node { id, writer: false, waker }) =~= core.idle_reads + seq![
        Node { id, writer: false, waker },
    ]);
}

/// A request that is taken back leaves its list and frees its slot; all others keep their places
/// and nothing else changes.
pub proof fn a_withdrawal_removes_one_request<T, W>(core: SingleState<T, W>, id: usize, i: int)
    requires
        core.wf(),
        core.live(id),
    ensures
        core.slots[id as int] == Slot::Waiting || core.slots[id as int] == Slot::Ready,
        ({
            let freed = SingleState { slots: core.slots.update(id as int, Slot::Free), ..core };
            &&& core.slots[id as int] == Slot::Ready ==> core.withdrawn(id) == freed
            &&& 0 <= i < core.queue.len() && core.queue[i].id == id ==> core.withdrawn(id) == (
            SingleState { queue: core.queue.remove(i), ..freed })
            &&& 0 <= i < core.idle_reads.len() && core.idle_reads[i].id == id ==> core.withdrawn(id)
                == (SingleState { idle_reads: core.idle_reads.remove(i), ..freed })
            &&& 0 <= i < core.waiters.len() && core.waiters[i].id == id ==> core.withdrawn(id) == (
            SingleState { waiters: core.waiters.remove(i), ..freed })
        }),
{
    lemma_without_others(core.queue, id);
    lemma_without_others(core.idle_reads, id);
    lemma_without_others(core.waiters, id);
    if 0 <= i < core.queue.len() && core.queue[i].id == id {
        lemma_without_is_remove(core.queue, id, i);
        lemma_elsewhere(core.queue, core.idle_reads, id, i);
        lemma_elsewhere(core.queue, core.waiters, id, i);
    }
    if 0 <= i < core.idle_reads.len() && core.idle_reads[i].id == id {
        lemma_without_is_remove(core.idle_reads, id, i);
        lemma_elsewhere(core.idle_reads, core.queue, id, i);
        lemma_elsewhere(core.idle_reads, core.waiters, id, i);
    }
    if 0 <= i < core.waiters.len() && core.waiters[i].id == id {
        lemma_without_is_remove(core.waiters, id, i);
        lemma_elsewhere(core.waiters, core.queue, id, i);
        lemma_elsewhere(core.waiters, core.idle_reads, id, i);
    }
}

proof fn lemma_without_others<W>(nodes: Seq<Node<W>>, id: usize)
    ensures
        (forall|i: int| 0 <= i < nodes.len() ==> (#[trigger] nodes[i]).id != id)
            ==> state::without(nodes, id) == nodes,
{
    state::lemma_without(nodes, id);
}

proof fn lemma_elsewhere<W>(nodes: Seq<Node<W>>, others: Seq<Node<W>>, id: usize, i: int)
    requires
        0 <= i < nodes.len(),
        nodes[i].id == id,
        state::disjoint_ids(nodes, others) || state::disjoint_ids(others, nodes),
    ensures
        state::without(others, id) == others,
{
    assert forall|j: int| 0 <= j < others.len() implies (#[trigger] others[j]).id != id by {
        assert(nodes[i].id != others[j].id);
    }
    lemma_without_others(others, id);
}

proof fn lemma_without_is_remove<W>(nodes: Seq<Node<W>>, id: usize, i: int)
    requires
        state::distinct_ids(nodes),
        0 <= i < nodes.len(),
        nodes[i].id == id,
    ensures
        state::without(nodes, id) == nodes.remove(i),
    decreases nodes.len(),
{
    state::lemma_without_step(nodes, id);
    let front = nodes.drop_last();
    assert forall|j: int, k: int| 0 <= j < k < front.len() implies (#[trigger] front[j]).id != (
    #[trigger] front[k]).id by {
        assert(nodes[j] == front[j] && nodes[k] == front[k]);
    }
    if i == nodes.len() - 1 {
        assert forall|j: int| 0 <= j < front.len() implies (#[trigger] front[j]).id != id by {
            assert(nodes[j] == front[j]);
        }
        lemma_without_others(front, id);
        assert(front =~= nodes.remove(i));
    } else {
        assert(front[i] == nodes[i]);
        lemma_without_is_remove(front, id, i);
        assert(nodes.last().id != id);
        assert(front.remove(i).push(nodes.last()) =~= nodes.remove(i));
    }
}

/// Nobody is queued for a lock that nobody holds, every request that waits is in exactly one list,
/// and every request in a list waits.
pub proof fn requests_wait_for_a_reason<T, W>(core: SingleState<T, W>, id: int)
    requires
        core.wf(),
        0 <= id < core.slots.len(),
    ensures
        core.queue.len() > 0 ==> core.lock == Lock::Writer || (core.lock matches Lock::Readers(n)
            && n > 0),
        core.slots[id] == Slot::Waiting <==> (exists|i: int|
            0 <= i < core.queue.len() && (#[trigger] core.queue[i]).id == id) || (exists|i: int|
            0 <= i < core.idle_reads.len() && (#[trigger] core.idle_reads[i]).id == id) || (exists|
            i: int,
        |
            0 <= i < core.waiters.len() && (#[trigger] core.waiters[i]).id == id),
        forall|i: int, j: int|
            0 <= i < core.queue.len() && 0 <= j < core.idle_reads.len() ==> (
            #[trigger] core.queue[i]).id != (#[trigger] core.idle_reads[j]).id,
        forall|i: int, j: int|
            0 <= i < core.queue.len() && 0 <= j < core.waiters.len() ==> (
            #[trigger] core.queue[i]).id != (#[trigger] core.waiters[j]).id,
        forall|i: int, j: int|
            0 <= i < core.idle_reads.len() && 0 <= j < core.waiters.len() ==> (
            #[trigger] core.idle_reads[i]).id != (#[trigger] core.waiters[j]).id,
{
    assert(core.slots[id] == Slot::Waiting ==> state::has_id(core.queue, id) || state::has_id(
        core.idle_reads,
        id,
    ) || state::has_id(core.waiters, id));
}

/// A future that watches the version is granted exactly if its slot is ready, and one that has not
/// registered leaves nothing behind.
pub proof fn a_watching_future_goes_by_its_slot<T, W>(
    core: SingleState<T, W>,
    id: usize,
    reference: Version,
)
    ensures
        Progress::Registered(id).known(core) <==> id < core.slots.len() && core.slots[id as int]
            != Slot::Free,
        Progress::Registered(id).granted(core) <==> core.slots[id as int] == Slot::Ready,
        Progress::Registered(id).withdrawn_from(core) == core.withdrawn(id),
        Progress::Watching(reference).known(core),
        !Progress::Watching(reference).granted(core),
        Progress::Watching(reference).withdrawn_from(core) == core,
{
}

/// A fresh core is open, at its first version, with one writer; nobody holds its lock or waits.
pub proof fn a_fresh_core_is_idle<T, W>(value: T)
    ensures
        ({
            let core = AsyncSingleCore::<T, W>::fresh(value);
            &&& core.wf()
            &&& core.version.0 == 0
            &&& core.writers == 1
            &&& core.lock == Lock::Readers(0)
            &&& core.queue.len() == 0
            &&& core.idle_reads.len() == 0
            &&& core.waiters.len() == 0
            &&& core.slots.len() == 0
            &&& core.data == value
        }),
{
}

/// What writers and observers see of the single-threaded core is its state.
pub proof fn the_core_shows_its_state<T, W>(core: &AsyncSingleCore<T, W>)
    ensures
        core.model() == core@,
        SensorCore::wf(core) <==> core@.wf(),
        core.current() == core@.version,
        core.writers() == core@.writers,
        core.value() == core@.data,
        core.can_read() <==> core@.queue.len() == 0 && core@.lock is Readers
            && core@.lock->Readers_0 < MAX_READERS,
        core.can_write() <==> core@.queue.len() == 0 && core@.lock is Readers
            && core@.lock->Readers_0 == 0,
        core.writing() <==> core@.lock is Writer,
        core.update_wakes() == core@.updated_wakes(),
        core.deregister_wakes() == core@.writer_gone_wakes(),
        core.modify_wakes(false) == core@.handed_over_to(),
        core.modify_wakes(true) == core@.updated_wakes() + core@.updated().handed_over_to(),
{
}

/// The operations of the single-threaded core as writers know them are those of its state: a
/// finished writer leaves its value, counts an update where it says so, and gives the lock on.
pub proof fn the_core_moves_with_its_state<T, W>(
    state: SingleState<T, W>,
    value: T,
)
    ensures
        AsyncSingleCore::<T, W>::registered(state) == (SingleState {
            writers: state.writers + 1,
            ..state
        }),
        AsyncSingleCore::<T, W>::deregistered(state) == state.writer_gone(),
        AsyncSingleCore::<T, W>::updated(state) == state.updated(),
        AsyncSingleCore::<T, W>::reading(state) == state.reader_entered(),
        AsyncSingleCore::<T, W>::written(state) == state.writer_entered(),
        AsyncSingleCore::<T, W>::modified(state, value, false) == (SingleState {
            data: value,
            ..state.handed_over()
        }),
        AsyncSingleCore::<T, W>::modified(state, value, true) == (SingleState {
            data: value,
            ..state.updated().handed_over()
        }),
{
}

/// A finished writer that says so wakes every waiter, and then the requests that the lock goes to:
/// the first of them, and all of them where they are reads.
pub proof fn a_finished_update_wakes_the_waiters_and_the_next<T, W>(
    core: &AsyncSingleCore<T, W>,
    value: T,
)
    requires
        SensorCore::wf(core),
        core.writing(),
    ensures
        ({
            let after = AsyncSingleCore::<T, W>::modified(core@, value, true);
            let woken = core.modify_wakes(true);
            let waiters = core@.waiters.len();
            let all = core@.queue + core@.idle_reads;
            &&& after.wf()
            &&& after.data == value
            &&& after.version == core@.version.next()
            &&& after.waiters.len() == 0
            &&& after.idle_reads.len() == 0
            &&& forall|i: int|
                0 <= i < waiters ==> #[trigger] woken[i] == core@.waiters[i].waker
            &&& all.len() == 0 ==> after.lock == Lock::Readers(0) && woken.len() == waiters
            &&& all.len() > 0 ==> woken.len() > waiters && woken[waiters as int] == all[0].waker
            &&& all.len() > 0 && all[0].writer ==> after.lock == Lock::Writer && woken.len()
                == waiters + 1
            &&& all.len() > 0 && !all[0].writer ==> after.lock == Lock::Readers(
                (woken.len() - waiters) as nat,
            )
            &&& forall|i: int|
                0 <= i < woken.len() - waiters ==> woken[waiters + i] == (#[trigger] all[i]).waker
            &&& after.queue == all.subrange(woken.len() - waiters, all.len() as int)
        }),
{
    let state = core@;
    let update = state.updated();
    state::lemma_released_wf(state);
    assert(update.wf());
    an_update_wakes_everyone_that_it_readies(state);
    an_update_readies_or_queues(state);
    assert(state.idle_reads.subrange(0, state.idle_reads.len() as int) =~= state.idle_reads);
    let all = state.queue + state.idle_reads;
    assert(update.queue == all);
    state::lemma_handed_over_wf(update);
    let after = AsyncSingleCore::<T, W>::modified(core@, value, true);
    assert(after.wf()) by {
        let handed = update.handed_over();
        assert(after.queue == handed.queue && after.slots == handed.slots);
        assert(after.idle_reads == handed.idle_reads && after.waiters == handed.waiters);
        assert(after.lock == handed.lock);
    }
    let waiters = state.waiters.len() as int;
    let woken = core.modify_wakes(true);
    assert forall|i: int| 0 <= i < waiters implies #[trigger] woken[i] == state.waiters[i].waker by {
        assert(state.updated_wakes()[0 + i] == state.waiters[i].waker);
    }
    let next = update.handed_over_to();
    assert(woken == state.updated_wakes() + next);
    if all.len() == 0 {
        a_free_lock_with_an_empty_queue_stays_free(update);
        assert(all.subrange(0, 0) =~= all);
    } else if all[0].writer {
        a_free_lock_goes_to_the_first_write(update);
        assert(all.drop_first() =~= all.subrange(1, all.len() as int));
    } else {
        a_free_lock_goes_to_the_first_reads(update);
    }
    assert forall|i: int| 0 <= i < next.len() implies woken[waiters + i] == (
    #[trigger] all[i]).waker by {
        assert(woken[waiters + i] == next[i]);
    }
    if all.len() > 0 {
        assert(woken[waiters + 0] == all[0].waker);
    }
}

} // verus!
