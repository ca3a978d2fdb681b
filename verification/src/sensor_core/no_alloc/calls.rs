//! What the operations and futures of the single-threaded core promise of each call.

use vstd::prelude::*;

use crate::poll::Poll;
use crate::version::Version;

use super::effects;
use super::futures::{ConditionalRead, Progress, Read, WaitChanged, WaitFor, Write};
use super::state::{Lock, SingleState, Slot, MAX_READERS};
use super::{AsyncSingleCore, ReadGuard, WriteGuard};

verus! {

/// Whether `after` is `before` with one more request in slot `id`, at the end of the queue.
pub open spec fn one_more_queued<T, W: Clone>(
    before: SingleState<T, W>,
    after: SingleState<T, W>,
    id: usize,
    writer: bool,
    waker: W,
) -> bool {
    &&& after.queue.len() == before.queue.len() + 1
    &&& after.queue.drop_last() == before.queue
    &&& after.queue.last().id == id
    &&& after.queue.last().writer == writer
    &&& cloned(waker, after.queue.last().waker)
    &&& after.idle_reads == before.idle_reads
    &&& after.waiters == before.waiters
    &&& only_slot_waits(before, after, id)
}

/// Whether `after` is `before` with one more request in slot `id`, at the end of the idle reads.
pub open spec fn one_more_idle<T, W: Clone>(
    before: SingleState<T, W>,
    after: SingleState<T, W>,
    id: usize,
    waker: W,
) -> bool {
    &&& after.idle_reads.len() == before.idle_reads.len() + 1
    &&& after.idle_reads.drop_last() == before.idle_reads
    &&& after.idle_reads.last().id == id
    &&& cloned(waker, after.idle_reads.last().waker)
    &&& after.queue == before.queue
    &&& after.waiters == before.waiters
    &&& only_slot_waits(before, after, id)
}

/// Whether `after` is `before` with one more request in slot `id`, in front of the waiters.
pub open spec fn one_more_waiter<T, W: Clone>(
    before: SingleState<T, W>,
    after: SingleState<T, W>,
    id: usize,
    waker: W,
) -> bool {
    &&& after.waiters.len() == before.waiters.len() + 1
    &&& after.waiters.drop_first() == before.waiters
    &&& after.waiters[0].id == id
    &&& cloned(waker, after.waiters[0].waker)
    &&& after.queue == before.queue
    &&& after.idle_reads == before.idle_reads
    &&& only_slot_waits(before, after, id)
}

/// Whether slot `id`, which was free or new, has come to wait, and the other slots, the version, the
/// writers, the lock and the data are as they were.
pub open spec fn only_slot_waits<T, W>(
    before: SingleState<T, W>,
    after: SingleState<T, W>,
    id: usize,
) -> bool {
    &&& id <= before.slots.len()
    &&& id < before.slots.len() ==> before.slots[id as int] == Slot::Free
    &&& id < after.slots.len() && after.slots[id as int] == Slot::Waiting
    &&& forall|other: int|
        0 <= other < before.slots.len() && other != id ==> #[trigger] after.slots[other]
            == before.slots[other]
    &&& after.version == before.version
    &&& after.writers == before.writers
    &&& after.lock == before.lock
    &&& after.data == before.data
}

proof fn lemma_registrations<T, W: Clone>(core: SingleState<T, W>, waker: W)
    ensures
        forall|id: usize, writer: bool, w: W|
            core.vacant(id) && cloned(waker, w) ==> one_more_queued(
                core,
                #[trigger] core.queued(id, writer, w),
                id,
                writer,
                waker,
            ),
        forall|id: usize, w: W|
            core.vacant(id) && cloned(waker, w) ==> one_more_idle(
                core,
                #[trigger] core.idled(id, w),
                id,
                waker,
            ),
        forall|id: usize, w: W|
            core.vacant(id) && cloned(waker, w) ==> one_more_waiter(
                core,
                #[trigger] core.awaited(id, w),
                id,
                waker,
            ),
{
    assert forall|id: usize, writer: bool, w: W|
        core.vacant(id) && cloned(waker, w) implies one_more_queued(
        core,
        #[trigger] core.queued(id, writer, w),
        id,
        writer,
        waker,
    ) by {
        assert(core.queued(id, writer, w).queue.drop_last() =~= core.queue);
    }
    assert forall|id: usize, w: W| core.vacant(id) && cloned(waker, w) implies one_more_idle(
        core,
        #[trigger] core.idled(id, w),
        id,
        waker,
    ) by {
        assert(core.idled(id, w).idle_reads.drop_last() =~= core.idle_reads);
    }
    assert forall|id: usize, w: W| core.vacant(id) && cloned(waker, w) implies one_more_waiter(
        core,
        #[trigger] core.awaited(id, w),
        id,
        waker,
    ) by {
        assert(core.awaited(id, w).waiters.drop_first() =~= core.waiters);
    }
}

/// Whether somebody who wants to read, or to write, is let in at once.
pub open spec fn is_free<T, W>(core: SingleState<T, W>, writer: bool) -> bool {
    &&& core.queue.len() == 0
    &&& match core.lock {
        Lock::Readers(readers) => if writer {
            readers == 0
        } else {
            readers < MAX_READERS
        },
        Lock::Writer => false,
    }
}

/// What one poll of a read or a write does. `slot` and `next` are the slot of the request before and
/// after the poll. At first it is let in, which changes the lock alone, or queued; a queued request
/// is ready exactly if its slot is, and its polls change nothing.
pub open spec fn let_in_or_queued<T, W: Clone>(
    before: SingleState<T, W>,
    after: SingleState<T, W>,
    slot: Option<usize>,
    next: Option<usize>,
    writer: bool,
    waker: W,
    ready: bool,
) -> bool {
    match slot {
        None => if is_free(before, writer) {
            &&& ready
            &&& next is None
            &&& after == (SingleState {
                lock: if writer {
                    Lock::Writer
                } else {
                    Lock::Readers(before.lock->Readers_0 + 1)
                },
                ..before
            })
        } else {
            &&& !ready
            &&& next matches Some(id) && one_more_queued(before, after, id, writer, waker)
        },
        Some(id) => {
            &&& ready <==> before.slots[id as int] == Slot::Ready
            &&& next == Some(id)
            &&& after == before
        },
    }
}

/// Reads are let in or queued at their first poll, and then go by their slots.
pub proof fn reads_are_let_in_or_queued<T, W: Clone>(waker: &W, polled: Poll<ReadGuard>)
    ensures
        forall|future: &mut Read, core: &mut AsyncSingleCore<T, W>|
            #[trigger] call_ensures(Read::poll::<T, W>, (future, core, waker), polled)
                ==> let_in_or_queued(
                (*core)@,
                (*final(core))@,
                (*future).slot(),
                (*final(future)).slot(),
                false,
                *waker,
                polled is Ready,
            ),
{
    assert forall|future: &mut Read, core: &mut AsyncSingleCore<T, W>|
        #[trigger] call_ensures(Read::poll::<T, W>, (future, core, waker), polled)
            implies let_in_or_queued(
        (*core)@,
        (*final(core))@,
        (*future).slot(),
        (*final(future)).slot(),
        false,
        *waker,
        polled is Ready,
    ) by {
        lemma_registrations((*core)@, *waker);
    }
}

/// Writes are let in or queued at their first poll, and then go by their slots.
pub proof fn writes_are_let_in_or_queued<T, W: Clone>(waker: &W, polled: Poll<WriteGuard>)
    ensures
        forall|future: &mut Write, core: &mut AsyncSingleCore<T, W>|
            #[trigger] call_ensures(Write::poll::<T, W>, (future, core, waker), polled)
                ==> let_in_or_queued(
                (*core)@,
                (*final(core))@,
                (*future).slot(),
                (*final(future)).slot(),
                true,
                *waker,
                polled is Ready,
            ),
{
    assert forall|future: &mut Write, core: &mut AsyncSingleCore<T, W>|
        #[trigger] call_ensures(Write::poll::<T, W>, (future, core, waker), polled)
            implies let_in_or_queued(
        (*core)@,
        (*final(core))@,
        (*future).slot(),
        (*final(future)).slot(),
        true,
        *waker,
        polled is Ready,
    ) by {
        lemma_registrations((*core)@, *waker);
    }
}

/// What one poll of a read that waits for a version does. On a closed sensor it is ready and changes
/// nothing. Where the version is the one that it has seen it becomes idle; otherwise it is let in or
/// queued. A registered one is ready exactly if its slot is.
pub open spec fn let_in_at_a_version<T, W: Clone>(
    before: SingleState<T, W>,
    after: SingleState<T, W>,
    progress: Progress,
    next: Progress,
    waker: W,
    ready: bool,
) -> bool {
    if before.version.0 % 2 == 1 {
        ready && next == progress && after == before
    } else {
        match progress {
            Progress::Watching(reference) => if reference == before.version {
                &&& !ready
                &&& next matches Progress::Registered(id) && one_more_idle(before, after, id, waker)
            } else if is_free(before, false) {
                &&& ready
                &&& next == progress
                &&& after == (SingleState {
                    lock: Lock::Readers(before.lock->Readers_0 + 1),
                    ..before
                })
            } else {
                &&& !ready
                &&& next matches Progress::Registered(id) && one_more_queued(
                    before,
                    after,
                    id,
                    false,
                    waker,
                )
            },
            Progress::Registered(id) => {
                &&& ready <==> before.slots[id as int] == Slot::Ready
                &&& next == progress
                &&& after == before
            },
        }
    }
}

/// Reads that wait for a version are let in at another version than the one that they have seen, or
/// at the end, and then tell the current one.
pub proof fn conditional_reads_are_let_in_at_a_version<T, W: Clone>(
    waker: &W,
    polled: Poll<(ReadGuard, Version)>,
)
    ensures
        forall|future: &mut ConditionalRead, core: &mut AsyncSingleCore<T, W>|
            #[trigger] call_ensures(ConditionalRead::poll::<T, W>, (future, core, waker), polled)
                ==> let_in_at_a_version(
                (*core)@,
                (*final(core))@,
                (*future).progress(),
                (*final(future)).progress(),
                *waker,
                polled is Ready,
            ) && (polled matches Poll::Ready((_, version)) ==> version == (*core)@.version),
{
    assert forall|future: &mut ConditionalRead, core: &mut AsyncSingleCore<T, W>|
        #[trigger] call_ensures(ConditionalRead::poll::<T, W>, (future, core, waker), polled)
            implies let_in_at_a_version(
        (*core)@,
        (*final(core))@,
        (*future).progress(),
        (*final(future)).progress(),
        *waker,
        polled is Ready,
    ) && (polled matches Poll::Ready((_, version)) ==> version == (*core)@.version) by {
        lemma_registrations((*core)@, *waker);
    }
}

/// What one poll of a wait for a change does. It is ready on a closed sensor, and at another version
/// than the one that it has seen; otherwise it waits in front of the others, and is ready from then
/// on exactly if its slot is.
pub open spec fn told_of_a_change<T, W: Clone>(
    before: SingleState<T, W>,
    after: SingleState<T, W>,
    progress: Progress,
    next: Progress,
    waker: W,
    ready: bool,
) -> bool {
    match progress {
        Progress::Watching(reference) => if before.version.0 % 2 == 0 && reference
            == before.version {
            &&& !ready
            &&& next matches Progress::Registered(id) && one_more_waiter(before, after, id, waker)
        } else {
            ready && next == progress && after == before
        },
        Progress::Registered(id) => {
            &&& ready <==> before.version.0 % 2 == 1 || before.slots[id as int] == Slot::Ready
            &&& next == progress
            &&& after == before
        },
    }
}

/// Waits for a change end with the current version, at another version than the one that they have
/// seen or at the end.
pub proof fn waits_are_told_of_a_change<T, W: Clone>(waker: &W, polled: Poll<Version>)
    ensures
        forall|future: &mut WaitChanged, core: &mut AsyncSingleCore<T, W>|
            #[trigger] call_ensures(WaitChanged::poll::<T, W>, (future, core, waker), polled)
                ==> told_of_a_change(
                (*core)@,
                (*final(core))@,
                (*future).progress(),
                (*final(future)).progress(),
                *waker,
                polled is Ready,
            ) && (polled matches Poll::Ready(version) ==> version == (*core)@.version),
{
    assert forall|future: &mut WaitChanged, core: &mut AsyncSingleCore<T, W>|
        #[trigger] call_ensures(WaitChanged::poll::<T, W>, (future, core, waker), polled)
            implies told_of_a_change(
        (*core)@,
        (*final(core))@,
        (*future).progress(),
        (*final(future)).progress(),
        *waker,
        polled is Ready,
    ) && (polled matches Poll::Ready(version) ==> version == (*core)@.version) by {
        lemma_registrations((*core)@, *waker);
    }
}

/// What one poll of a wait for a condition does. It ends on a closed sensor whatever the data, and
/// else only with a condition that has held of the data. It tests the condition only when its read
/// is let in; until then it does what the read does, and wakes nobody. Where the condition fails, it
/// waits for the next version behind the other idle reads.
pub open spec fn tested_when_let_in<T, W: Clone, C: FnMut(&T) -> bool>(
    before: SingleState<T, W>,
    after: SingleState<T, W>,
    progress: Progress,
    next: Progress,
    waker: W,
    condition: C,
    ready: bool,
    woken: Seq<W>,
) -> bool {
    let closed = before.version.0 % 2 == 1;
    let let_in = match progress {
        Progress::Watching(reference) => reference != before.version && is_free(before, false),
        Progress::Registered(id) => before.slots[id as int] == Slot::Ready,
    };
    if closed || !let_in {
        &&& woken.len() == 0
        &&& let_in_at_a_version(before, after, progress, next, waker, ready)
    } else if ready {
        &&& call_ensures(condition, (&before.data,), true)
        &&& woken.len() == 0
        &&& let_in_at_a_version(before, after, progress, next, waker, true)
    } else {
        &&& call_ensures(condition, (&before.data,), false)
        &&& next matches Progress::Registered(id) && after.idle_reads.len() > 0
            && after.idle_reads.last().id == id && after.slots[id as int] == Slot::Waiting
        &&& cloned(waker, after.idle_reads.last().waker)
        &&& after.data == before.data
        &&& after.version == before.version
        &&& after.writers == before.writers
    }
}

/// Waits for a condition test it when their read is let in, and end with the version at which it
/// held or at which the sensor closed.
pub proof fn conditions_are_tested_when_a_read_is_let_in<T, W: Clone, C: FnMut(&T) -> bool>(
    waker: &W,
    result: (Poll<(ReadGuard, Version)>, Vec<W>),
)
    ensures
        forall|future: &mut WaitFor, core: &mut AsyncSingleCore<T, W>, condition: &mut C|
            #[trigger] call_ensures(
                WaitFor::poll::<T, W, C>,
                (future, core, waker, condition),
                result,
            ) ==> tested_when_let_in(
                (*core)@,
                (*final(core))@,
                (*future).progress(),
                (*final(future)).progress(),
                *waker,
                *condition,
                result.0 is Ready,
                result.1@,
            ) && (result.0 matches Poll::Ready((_, version)) ==> version == (*core)@.version),
{
    assert forall|future: &mut WaitFor, core: &mut AsyncSingleCore<T, W>, condition: &mut C|
        #[trigger] call_ensures(
            WaitFor::poll::<T, W, C>,
            (future, core, waker, condition),
            result,
        ) implies tested_when_let_in(
        (*core)@,
        (*final(core))@,
        (*future).progress(),
        (*final(future)).progress(),
        *waker,
        *condition,
        result.0 is Ready,
        result.1@,
    ) && (result.0 matches Poll::Ready((_, version)) ==> version == (*core)@.version) by {
        let before = (*core)@;
        let reading = if (*future).progress() is Watching {
            before.reader_entered()
        } else {
            before
        };
        lemma_registrations(before, *waker);
        lemma_registrations((*future).progress().withdrawn_from(reading.reader_left()), *waker);
    }
}

/// A read guard that is given back while others are out only lowers the number of readers, and
/// nobody is woken, whoever is queued.
pub proof fn read_guards_are_given_back_one_by_one<T, W>(guard: ReadGuard, woken: Vec<W>)
    ensures
        forall|core: &mut AsyncSingleCore<T, W>|
            #[trigger] call_ensures(ReadGuard::drop::<T, W>, (guard, core), woken)
                && (*core)@.lock is Readers && (*core)@.lock->Readers_0 > 1 ==> woken@.len() == 0
                && (*final(core))@ == (SingleState {
                lock: Lock::Readers(((*core)@.lock->Readers_0 - 1) as nat),
                ..(*core)@
            }),
{
}

/// A guard that is given back as the last one lets the front of the queue in: a write alone, or
/// reads; the first of them is woken first, and nobody is woken where nobody is queued.
pub proof fn the_front_of_the_queue_is_let_in<T, W>(
    read: ReadGuard,
    write: WriteGuard,
    woken: Vec<W>,
)
    ensures
        forall|core: &mut AsyncSingleCore<T, W>|
            (#[trigger] call_ensures(ReadGuard::drop::<T, W>, (read, core), woken) && (*core)@.lock
                == Lock::Readers(1)) && (*core)@.wf() ==> the_first_are_let_in(
                (*core)@,
                (*final(core))@,
                woken@,
            ),
        forall|core: &mut AsyncSingleCore<T, W>|
            #[trigger] call_ensures(WriteGuard::drop::<T, W>, (write, core), woken) && (*core)@.wf()
                ==> the_first_are_let_in((*core)@, (*final(core))@, woken@),
{
    assert forall|core: SingleState<T, W>| core.wf() implies the_first_are_let_in(
        core,
        #[trigger] core.handed_over(),
        core.handed_over_to(),
    ) by {
        if core.queue.len() == 0 {
            effects::a_free_lock_with_an_empty_queue_stays_free(core);
        } else if core.queue[0].writer {
            effects::a_free_lock_goes_to_the_first_write(core);
            assert(core.queue.drop_first() =~= core.queue.subrange(1, core.queue.len() as int));
        } else {
            effects::a_free_lock_goes_to_the_first_reads(core);
        }
    }
}

/// Whether the lock of a core that nobody holds any more has gone to the front of its queue: to
/// nobody, to one write, or to the reads before the first write as far as they can be counted. They
/// are woken in their order and their slots are ready.
pub open spec fn the_first_are_let_in<T, W>(
    before: SingleState<T, W>,
    after: SingleState<T, W>,
    woken: Seq<W>,
) -> bool {
    let n = woken.len() as int;
    &&& n <= before.queue.len()
    &&& n == 0 <==> before.queue.len() == 0
    &&& n > 0 && before.queue[0].writer ==> n == 1 && after.lock == Lock::Writer
    &&& n == 0 || !before.queue[0].writer ==> after.lock == Lock::Readers(n as nat)
    &&& n > 0 && !before.queue[0].writer ==> n == before.queue.len() || n == MAX_READERS
        || before.queue[n].writer
    &&& forall|i: int| 0 <= i < n && i > 0 ==> !(#[trigger] before.queue[i]).writer
    &&& forall|i: int| 0 <= i < n ==> #[trigger] woken[i] == before.queue[i].waker
    &&& forall|i: int|
        0 <= i < n ==> after.slots[(#[trigger] before.queue[i]).id as int] == Slot::Ready
    &&& after.queue == before.queue.subrange(n, before.queue.len() as int)
    &&& after.idle_reads == before.idle_reads
    &&& after.waiters == before.waiters
    &&& after.version == before.version
    &&& after.writers == before.writers
    &&& after.data == before.data
}

/// An update, and the end of the last writer, wake every waiter; the end of any other writer wakes
/// nobody and closes nothing.
pub proof fn everyone_is_woken<T, W>(woken: Vec<W>)
    ensures
        forall|core: &mut AsyncSingleCore<T, W>|
            #[trigger] call_ensures(AsyncSingleCore::<T, W>::mark_unseen, (core,), woken)
                && (*core)@.wf() ==> {
                &&& (*final(core))@.version.0 as int == ((*core)@.version.0 + 2) % (usize::MAX + 1)
                &&& all_waiters_are_woken((*core)@, (*final(core))@, woken@)
            },
        forall|core: &mut AsyncSingleCore<T, W>|
            #[trigger] call_ensures(AsyncSingleCore::<T, W>::deregister_writer, (core,), woken)
                && (*core)@.wf() && (*core)@.writers == 1 ==> {
                &&& (*final(core))@.writers == 0
                &&& (*final(core))@.version.0 % 2 == 1
                &&& (*final(core))@.version.0 / 2 == (*core)@.version.0 / 2
                &&& all_waiters_are_woken((*core)@, (*final(core))@, woken@)
            },
        forall|core: &mut AsyncSingleCore<T, W>|
            #[trigger] call_ensures(AsyncSingleCore::<T, W>::deregister_writer, (core,), woken)
                && (*core)@.writers > 1 ==> woken@.len() == 0 && (*final(core))@ == (SingleState {
                writers: ((*core)@.writers - 1) as nat,
                ..(*core)@
            }),
{
    assert forall|core: SingleState<T, W>| core.wf() implies all_waiters_are_woken(
        core,
        #[trigger] core.updated(),
        core.updated_wakes(),
    ) by {
        effects::an_update_wakes_everyone_that_it_readies(core);
        effects::an_update_readies_or_queues(core);
        effects::idle_reads_are_let_in_while_the_lock_allows(core);
        crate::version::versions_count_in_twos(core.version);
    }
    assert forall|core: SingleState<T, W>|
        core.wf() && core.writers == 1 implies all_waiters_are_woken(
        core,
        #[trigger] core.writer_gone(),
        core.writer_gone_wakes(),
    ) by {
        effects::an_update_wakes_everyone_that_it_readies(core);
        effects::only_the_last_writer_changes_more_than_the_count(core);
        effects::idle_reads_are_let_in_while_the_lock_allows(core);
    }
    assert forall|core: &mut AsyncSingleCore<T, W>|
        #[trigger] call_ensures(AsyncSingleCore::<T, W>::mark_unseen, (core,), woken)
            && (*core)@.wf() implies (*final(core))@.version.0 as int == ((*core)@.version.0 + 2) % (
    usize::MAX + 1) by {
        crate::version::versions_count_in_twos((*core)@.version);
    }
}

/// Whether all waiters have been woken and made ready, in their order and behind the idle reads that
/// were let in, and the idle reads that were not are queued.
pub open spec fn all_waiters_are_woken<T, W>(
    before: SingleState<T, W>,
    after: SingleState<T, W>,
    woken: Seq<W>,
) -> bool {
    let reads = woken.len() - before.waiters.len();
    &&& 0 <= reads <= before.idle_reads.len()
    &&& before.queue.len() > 0 || before.lock == Lock::Writer ==> reads == 0
    &&& before.queue.len() == 0 && (before.lock matches Lock::Readers(readers) && readers
        + before.idle_reads.len() <= MAX_READERS) ==> reads == before.idle_reads.len()
    &&& forall|i: int| 0 <= i < reads ==> #[trigger] woken[i] == before.idle_reads[i].waker
    &&& forall|i: int|
        0 <= i < before.waiters.len() ==> woken[reads + i] == (#[trigger] before.waiters[i]).waker
    &&& forall|i: int|
        0 <= i < before.waiters.len() ==> after.slots[(#[trigger] before.waiters[i]).id as int]
            == Slot::Ready
    &&& after.waiters.len() == 0
    &&& after.idle_reads.len() == 0
    &&& after.queue == before.queue + before.idle_reads.subrange(
        reads,
        before.idle_reads.len() as int,
    )
    &&& after.data == before.data
}

/// Somebody who tries to read or to write is let in exactly if the lock is free for it, which
/// changes the lock alone; otherwise nothing changes.
pub proof fn tries_are_let_in_or_change_nothing<T, W>(
    read: Option<ReadGuard>,
    write: Option<WriteGuard>,
)
    ensures
        forall|core: &mut AsyncSingleCore<T, W>|
            #[trigger] call_ensures(AsyncSingleCore::<T, W>::try_read, (core,), read) ==> (
            read is Some <==> is_free((*core)@, false)) && (*final(core))@ == (if read is Some {
                SingleState { lock: Lock::Readers((*core)@.lock->Readers_0 + 1), ..(*core)@ }
            } else {
                (*core)@
            }),
        forall|core: &mut AsyncSingleCore<T, W>|
            #[trigger] call_ensures(AsyncSingleCore::<T, W>::try_write, (core,), write) ==> (
            write is Some <==> is_free((*core)@, true)) && (*final(core))@ == (if write is Some {
                SingleState { lock: Lock::Writer, ..(*core)@ }
            } else {
                (*core)@
            }),
{
}

/// A finished writer leaves the value that its modification made and gives the lock on. Only where
/// the modification says so the version is counted up and the waiters are woken; otherwise version,
/// idle reads and waiters stay as they are.
pub proof fn only_changes_are_updates<T, W, F: FnOnce(&mut T) -> bool>(
    guard: WriteGuard,
    f: F,
    result: (bool, Vec<W>),
)
    ensures
        forall|core: &mut AsyncSingleCore<T, W>|
            #[trigger] call_ensures(
                AsyncSingleCore::<T, W>::modify::<F>,
                (core, guard, f),
                result,
            ) && (*core)@.wf() && (*core)@.lock == Lock::Writer ==> {
                let before = (*core)@;
                let after = (*final(core))@;
                &&& exists|data: &mut T| #[trigger]
                    call_ensures(f, (data,), result.0) && *data == before.data && *final(data)
                        == after.data
                &&& after.writers == before.writers
                &&& result.0 ==> after.version == before.version.next() && after.waiters.len() == 0
                    && after.idle_reads.len() == 0 && forall|i: int|
                    0 <= i < before.waiters.len() ==> #[trigger] result.1@[i]
                        == before.waiters[i].waker
                &&& !result.0 ==> after.version == before.version && after.waiters == before.waiters
                    && after.idle_reads == before.idle_reads
                &&& !result.0 && before.queue.len() == 0 ==> after.lock == Lock::Readers(0)
                    && result.1@.len() == 0
                &&& !result.0 && before.queue.len() > 0 ==> result.1@.len() > 0 && result.1@[0]
                    == before.queue[0].waker
            },
{
    assert forall|state: SingleState<T, W>| state.wf() && state.lock == Lock::Writer implies {
        let wakes = #[trigger] state.updated_wakes();
        &&& wakes.len() == state.waiters.len()
        &&& forall|i: int| 0 <= i < wakes.len() ==> #[trigger] wakes[i] == state.waiters[i].waker
    } by {
        effects::an_update_wakes_everyone_that_it_readies(state);
        assert forall|i: int| 0 <= i < state.updated_wakes().len() implies #[trigger] state.updated_wakes()[i]
            == state.waiters[i].waker by {
            assert(state.updated_wakes()[state.admitted() + i] == state.waiters[i].waker);
        }
    }
    assert forall|state: SingleState<T, W>| state.wf() implies {
        let wakes = #[trigger] state.handed_over_to();
        &&& state.queue.len() == 0 ==> wakes.len() == 0 && state.handed_over().lock
            == Lock::Readers(0)
        &&& state.queue.len() > 0 ==> wakes.len() > 0 && wakes[0] == state.queue[0].waker
    } by {
        if state.queue.len() == 0 {
            effects::a_free_lock_with_an_empty_queue_stays_free(state);
        } else if state.queue[0].writer {
            effects::a_free_lock_goes_to_the_first_write(state);
        } else {
            effects::a_free_lock_goes_to_the_first_reads(state);
        }
    }
}

/// A future that goes takes its request back, and one without a request leaves nothing behind.
pub proof fn ended_futures_take_their_requests_back<T, W>(
    read: Read,
    write: Write,
    waiting: WaitChanged,
)
    ensures
        forall|core: &mut AsyncSingleCore<T, W>|
            #[trigger] call_ensures(Read::drop::<T, W>, (read, core), ()) ==> (match read.slot() {
                Some(id) => (*final(core))@ == (*core)@.withdrawn(id),
                None => (*final(core))@ == (*core)@,
            }),
        forall|core: &mut AsyncSingleCore<T, W>|
            #[trigger] call_ensures(Write::drop::<T, W>, (write, core), ()) ==> (match write.slot() {
                Some(id) => (*final(core))@ == (*core)@.withdrawn(id),
                None => (*final(core))@ == (*core)@,
            }),
        forall|core: &mut AsyncSingleCore<T, W>|
            #[trigger] call_ensures(WaitChanged::drop::<T, W>, (waiting, core), ()) ==> (
            match waiting.progress() {
                Progress::Registered(id) => (*final(core))@ == (*core)@.withdrawn(id),
                Progress::Watching(_) => (*final(core))@ == (*core)@,
            }),
{
}

} // verus!
