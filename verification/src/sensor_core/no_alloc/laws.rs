//! What holds of the single-threaded core as a whole.

use vstd::prelude::*;

use super::state;
use super::state::{Lock, SingleState, Slot, MAX_READERS};

verus! {

/// While a writer is active nobody else is let in, not even by an update.
pub proof fn writer_excludes_everyone<T, W>(core: SingleState<T, W>)
    requires
        core.wf(),
        core.lock == Lock::Writer,
    ensures
        !core.readable(),
        !core.writable(),
        core.admitted() == 0,
        core.updated().lock == Lock::Writer,
{
}

/// While a reader is active no writer is let in, and an update leaves the readers active.
pub proof fn readers_exclude_writers<T, W>(core: SingleState<T, W>, readers: nat)
    requires
        core.wf(),
        core.lock == Lock::Readers(readers),
        readers > 0,
    ensures
        !core.writable(),
        core.updated().lock matches Lock::Readers(after) && readers <= after <= MAX_READERS,
{
}

/// While a request is queued the lock is held, and no newcomer overtakes the queue.
pub proof fn queue_is_not_overtaken<T, W>(core: SingleState<T, W>)
    requires
        core.wf(),
        core.queue.len() > 0,
    ensures
        core.lock != Lock::Readers(0),
        !core.readable(),
        !core.writable(),
        core.admitted() == 0,
{
}

/// A lock that is handed over goes to the front of the queue: of two queued requests the later
/// one is never granted without the earlier one.
pub proof fn requests_are_granted_in_order<T, W>(core: SingleState<T, W>, i: int, j: int)
    requires
        core.wf(),
        0 <= i < j < core.queue.len(),
        core.handed_over().slots[core.queue[j].id as int] == Slot::Ready,
    ensures
        core.handed_over().slots[core.queue[i].id as int] == Slot::Ready,
{
    state::lemma_leading_reads_bound(core.queue);
    let n = state::next_set(core.queue) as int;
    let taken = core.queue.take(n);
    assert(state::has_id(taken, core.queue[j].id as int));
    let k = choose|k: int| 0 <= k < taken.len() && (#[trigger] taken[k]).id == core.queue[j].id;
    assert(taken[k] == core.queue[k]);
    assert(k == j);
    assert(taken[i].id == core.queue[i].id);
    assert(state::has_id(taken, core.queue[i].id as int));
}

/// Handing over a lock for which somebody waits serves at least one request, wakes exactly those
/// that are served, and counts them: one writer, or as many readers as were woken.
pub proof fn handover_serves_the_queue<T, W>(core: SingleState<T, W>)
    requires
        core.wf(),
        core.queue.len() > 0,
    ensures
        core.handed_over_to().len() >= 1,
        core.handed_over().queue.len() + core.handed_over_to().len() == core.queue.len(),
        match core.handed_over().lock {
            Lock::Writer => core.handed_over_to().len() == 1 && core.queue[0].writer,
            Lock::Readers(readers) => {
                &&& core.handed_over_to().len() == readers
                &&& forall|i: int| 0 <= i < readers ==> !(#[trigger] core.queue[i]).writer
            },
        },
{
    state::lemma_leading_reads_bound(core.queue);
    lemma_leading_reads_are_reads(core.queue);
}

proof fn lemma_leading_reads_are_reads<W>(queue: Seq<super::state::Node<W>>)
    ensures
        forall|i: int| 0 <= i < state::leading_reads(queue) ==> !(#[trigger] queue[i]).writer,
    decreases queue.len(),
{
    if queue.len() > 0 && !queue[0].writer {
        lemma_leading_reads_are_reads(queue.drop_first());
        state::lemma_leading_reads_bound(queue);
        assert forall|i: int| 0 <= i < state::leading_reads(queue) implies !(
        #[trigger] queue[i]).writer by {
            if i > 0 {
                assert(queue.drop_first()[i - 1] == queue[i]);
            }
        }
    }
}

/// An update changes the version, releases every waiter, and leaves no read idle: each idle read
/// is granted or queued.
pub proof fn update_reaches_everyone<T, W>(core: SingleState<T, W>)
    requires
        core.wf(),
    ensures
        core.updated().version != core.version,
        core.updated().waiters.len() == 0,
        core.updated().idle_reads.len() == 0,
        forall|i: int|
            0 <= i < core.waiters.len() ==> core.updated().slots[(
            #[trigger] core.waiters[i]).id as int] == Slot::Ready,
        forall|i: int|
            0 <= i < core.idle_reads.len() ==> core.updated().slots[(
            #[trigger] core.idle_reads[i]).id as int] == Slot::Ready || state::has_id(
                core.updated().queue,
                core.idle_reads[i].id as int,
            ),
{
    crate::version::update_is_visible(core.version);
    let n = core.admitted() as int;
    assert forall|i: int| 0 <= i < core.waiters.len() implies core.updated().slots[(
    #[trigger] core.waiters[i]).id as int] == Slot::Ready by {
        assert(state::has_id(core.waiters, core.waiters[i].id as int));
    }
    assert forall|i: int| 0 <= i < core.idle_reads.len() implies core.updated().slots[(
    #[trigger] core.idle_reads[i]).id as int] == Slot::Ready || state::has_id(
        core.updated().queue,
        core.idle_reads[i].id as int,
    ) by {
        if i < n {
            assert(core.idle_reads.take(n)[i] == core.idle_reads[i]);
            assert(state::has_id(core.idle_reads.take(n), core.idle_reads[i].id as int));
        } else {
            assert(core.updated().queue[core.queue.len() + (i - n)] == core.idle_reads[i]);
        }
    }
}

/// Taking a request back undoes its registration: only the slot stays behind, free.
pub proof fn withdrawal_undoes_registration<T, W>(
    core: SingleState<T, W>,
    id: usize,
    writer: bool,
    waker: W,
)
    requires
        core.wf(),
        core.vacant(id),
    ensures
        ({
            let undone = SingleState {
                slots: core.occupied(id).update(id as int, Slot::Free),
                ..core
            };
            &&& core.queued(id, writer, waker).withdrawn(id) == undone
            &&& core.idled(id, waker).withdrawn(id) == undone
            &&& core.awaited(id, waker).withdrawn(id) == undone
            &&& forall|other: usize|
                other != id ==> core.live(other) == #[trigger] undone.live(other)
        }),
{
    lemma_vacant_is_unused(core, id);
    state::lemma_without(core.queue, id);
    state::lemma_without(core.idle_reads, id);
    state::lemma_without(core.waiters, id);
    let node = super::state::Node { id, writer, waker };
    let idle = super::state::Node { id, writer: false, waker };
    state::lemma_without_step(core.queue.push(node), id);
    state::lemma_without_step(core.idle_reads.push(idle), id);
    assert(core.queue.push(node).drop_last() =~= core.queue);
    assert(core.idle_reads.push(idle).drop_last() =~= core.idle_reads);
    lemma_without_front(core.waiters, idle);
    assert(core.queued(id, writer, waker).withdrawn(id) =~= SingleState {
        slots: core.occupied(id).update(id as int, Slot::Free),
        ..core
    });
    assert(core.idled(id, waker).withdrawn(id) =~= SingleState {
        slots: core.occupied(id).update(id as int, Slot::Free),
        ..core
    });
    assert(core.awaited(id, waker).withdrawn(id) =~= SingleState {
        slots: core.occupied(id).update(id as int, Slot::Free),
        ..core
    });
}

proof fn lemma_vacant_is_unused<T, W>(core: SingleState<T, W>, id: usize)
    requires
        core.wf(),
        core.vacant(id),
    ensures
        !state::has_id(core.queue, id as int),
        !state::has_id(core.idle_reads, id as int),
        !state::has_id(core.waiters, id as int),
{
}

proof fn lemma_without_front<W>(nodes: Seq<super::state::Node<W>>, front: super::state::Node<W>)
    requires
        !state::has_id(nodes, front.id as int),
    ensures
        state::without(seq![front] + nodes, front.id) == nodes,
{
    Seq::filter_distributes_over_add(
        seq![front],
        nodes,
        |node: super::state::Node<W>| node.id != front.id,
    );
    state::lemma_without_step(seq![front], front.id);
    state::lemma_without_step(seq![front].drop_last(), front.id);
    state::lemma_without(nodes, front.id);
    assert(state::without(seq![front] + nodes, front.id) =~= nodes);
}

/// No operation touches the slot of a request that it is not about: a live request stays live,
/// whether others are let in, queued, woken or taken back.
pub proof fn live_requests_stay_live<T, W>(
    core: SingleState<T, W>,
    other: usize,
    id: usize,
    writer: bool,
    waker: W,
)
    requires
        core.wf(),
        core.live(other),
        other != id,
    ensures
        core.handed_over().live(other),
        core.reader_left().live(other),
        core.updated().live(other),
        core.writer_gone().live(other),
        core.vacant(id) ==> core.queued(id, writer, waker).live(other) && core.idled(
            id,
            waker,
        ).live(other) && core.awaited(id, waker).live(other),
        core.live(id) ==> core.withdrawn(id).live(other),
{
}

/// A granted request stays granted until it is taken back.
pub proof fn grants_are_kept<T, W>(
    core: SingleState<T, W>,
    other: usize,
    id: usize,
    writer: bool,
    waker: W,
)
    requires
        core.wf(),
        core.live(other),
        core.slots[other as int] == Slot::Ready,
        other != id,
    ensures
        core.handed_over().slots[other as int] == Slot::Ready,
        core.reader_left().slots[other as int] == Slot::Ready,
        core.updated().slots[other as int] == Slot::Ready,
        core.writer_gone().slots[other as int] == Slot::Ready,
        core.vacant(id) ==> core.queued(id, writer, waker).slots[other as int] == Slot::Ready,
        core.vacant(id) ==> core.idled(id, waker).slots[other as int] == Slot::Ready,
        core.vacant(id) ==> core.awaited(id, waker).slots[other as int] == Slot::Ready,
        core.live(id) ==> core.withdrawn(id).slots[other as int] == Slot::Ready,
{
}

/// A guard that is taken at once and given back with nobody queued meanwhile leaves the core as
/// it was.
pub proof fn guards_are_given_back<T, W>(core: SingleState<T, W>)
    requires
        core.wf(),
    ensures
        core.readable() ==> core.reader_entered().reader_left() == core,
        core.readable() ==> core.reader_entered().reader_left_wakes() == Seq::<W>::empty(),
        core.writable() ==> core.writer_entered().handed_over() == core,
        core.writable() ==> core.writer_entered().handed_over_to() == Seq::<W>::empty(),
        core.writable() ==> core.readable(),
{
    if core.queue.len() == 0 {
        state::lemma_granted_none(core.slots, core.queue);
        assert(core.queue.skip(0) =~= core.queue);
        assert(core.queue.take(0) =~= core.queue);
        assert(state::wakers(core.queue) =~= Seq::<W>::empty());
    }
}

/// The sensor closes with its last writer and no sooner, and stays closed through updates.
pub proof fn last_writer_closes<T, W>(core: SingleState<T, W>)
    requires
        core.writers > 0,
    ensures
        core.writer_gone().version.is_closed() <==> core.writers == 1 || core.version.is_closed(),
        core.version.is_closed() ==> core.updated().version.is_closed(),
        core.version.is_closed() ==> core.writer_gone().version.is_closed(),
{
    crate::version::closing_is_final(core.version);
    crate::version::update_is_reversible(core.version);
}

/// Nothing but a write changes the value: it is the same whoever is let in, queued, woken or taken
/// back, and through updates and the end of writers.
pub proof fn only_writes_change_the_value<T, W>(
    core: SingleState<T, W>,
    id: usize,
    writer: bool,
    waker: W,
)
    ensures
        core.reader_entered().data == core.data,
        core.writer_entered().data == core.data,
        core.reader_left().data == core.data,
        core.handed_over().data == core.data,
        core.updated().data == core.data,
        core.writer_gone().data == core.data,
        core.queued(id, writer, waker).data == core.data,
        core.idled(id, waker).data == core.data,
        core.awaited(id, waker).data == core.data,
        core.withdrawn(id).data == core.data,
{
}

/// What a writer has written is what the next reader reads, whether or not the write counted as
/// an update; and with no read idle, the next reader is let in at once.
pub proof fn writes_are_read_back<T, W>(core: SingleState<T, W>, value: T, changed: bool)
    requires
        core.wf(),
        core.writable(),
    ensures
        ({
            let written = SingleState { data: value, ..core.writer_entered() };
            let counted = if changed {
                written.updated()
            } else {
                written
            };
            let released = counted.handed_over();
            &&& released.reader_entered().data == value
            &&& core.idle_reads.len() == 0 ==> released.readable()
        }),
{
    let written = SingleState { data: value, ..core.writer_entered() };
    if core.idle_reads.len() == 0 {
        assert(written.updated().queue =~= written.queue);
    }
}

/// The end of the last writer reaches everyone: it releases every waiter and leaves no read idle,
/// each idle read being granted or queued, and it wakes whom an update would have woken.
pub proof fn closing_reaches_everyone<T, W>(core: SingleState<T, W>)
    requires
        core.wf(),
        core.writers == 1,
    ensures
        core.writer_gone().version.is_closed(),
        core.writer_gone().waiters.len() == 0,
        core.writer_gone().idle_reads.len() == 0,
        core.writer_gone_wakes() == core.updated_wakes(),
        forall|i: int|
            0 <= i < core.waiters.len() ==> core.writer_gone().slots[(
            #[trigger] core.waiters[i]).id as int] == Slot::Ready,
        forall|i: int|
            0 <= i < core.idle_reads.len() ==> core.writer_gone().slots[(
            #[trigger] core.idle_reads[i]).id as int] == Slot::Ready || state::has_id(
                core.writer_gone().queue,
                core.idle_reads[i].id as int,
            ),
{
    update_reaches_everyone(core);
    crate::version::closing_is_final(core.version);
}

} // verus!
