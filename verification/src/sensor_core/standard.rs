//! A sensor core with a lock, an atomic version, and a list of wakers beside it.

use vstd::prelude::*;

use std::sync::atomic::{AtomicUsize, Ordering};

use crate::poll::Poll;
use crate::sensor_core::cells::{Account, Deed, SharedVersion, WriterCount};
use crate::sensor_core::external::{try_read_lock, try_write_lock};
use crate::version::{
    closed_bit_set, last_writer, same_update, SymResult, CLOSED_BIT, VERSION_BUMP,
};

verus! {

/// A waker in a list, with the slot of the future that it wakes.
pub struct WakerNode<W> {
    /// The slot of the future.
    pub id: usize,
    /// What wakes the future.
    pub waker: W,
}

/// How far a future that waits in a list is.
#[derive(Clone, Copy, PartialEq, Eq, Structural, Debug)]
pub enum WaitSlot {
    /// No future uses this slot.
    Free,
    /// The future waits to be woken.
    Waiting,
    /// The future is gone, and its waker is still in the list.
    Dropped,
    /// The future has been woken and not been polled since.
    Woken,
}

/// The state of a list of wakers.
#[verifier::ext_equal]
pub struct ListState<W> {
    /// The wakers, latest first.
    pub list: Seq<WakerNode<W>>,
    /// How far each future is.
    pub slots: Seq<WaitSlot>,
}

impl<W> ListState<W> {
    /// Whether the future of a slot has its waker in the list.
    pub open spec fn listed(slot: WaitSlot) -> bool {
        slot == WaitSlot::Waiting || slot == WaitSlot::Dropped
    }

    /// Whether one of the wakers belongs to slot `id`.
    pub open spec fn has_id(self, id: int) -> bool {
        exists|i: int| 0 <= i < self.list.len() && (#[trigger] self.list[i]).id == id
    }

    /// Whether the state is one that a list can be in: the futures that wait, or are gone without
    /// having been woken, are exactly those that have a waker in the list, and each has one.
    pub open spec fn wf(self) -> bool {
        &&& forall|i: int|
            0 <= i < self.list.len() ==> (#[trigger] self.list[i]).id < self.slots.len()
                && Self::listed(self.slots[self.list[i].id as int])
        &&& forall|i: int, j: int|
            0 <= i < j < self.list.len() ==> (#[trigger] self.list[i]).id != (
            #[trigger] self.list[j]).id
        &&& forall|id: int|
            0 <= id < self.slots.len() && Self::listed(#[trigger] self.slots[id]) ==> self.has_id(
                id,
            )
    }

    /// Whether slot `id` can be given to a future.
    pub open spec fn vacant(self, id: usize) -> bool {
        id == self.slots.len() || (id < self.slots.len() && self.slots[id as int] == WaitSlot::Free)
    }

    /// Whether slot `id` belongs to a future that is still there.
    pub open spec fn live(self, id: usize) -> bool {
        id < self.slots.len() && (self.slots[id as int] == WaitSlot::Waiting
            || self.slots[id as int] == WaitSlot::Woken)
    }

    /// The state with a waker in front of the others.
    pub open spec fn waited(self, id: usize, waker: W) -> Self {
        ListState {
            list: seq![WakerNode { id, waker }] + self.list,
            slots: if id < self.slots.len() {
                self.slots.update(id as int, WaitSlot::Waiting)
            } else {
                self.slots.push(WaitSlot::Waiting)
            },
        }
    }

    /// The state after the woken future of slot `id` has been polled.
    pub open spec fn told(self, id: usize) -> Self {
        ListState { slots: self.slots.update(id as int, WaitSlot::Free), ..self }
    }

    /// The state after the future of slot `id` has gone.
    pub open spec fn dropped(self, id: usize) -> Self {
        ListState {
            slots: self.slots.update(
                id as int,
                if self.slots[id as int] == WaitSlot::Woken {
                    WaitSlot::Free
                } else {
                    WaitSlot::Dropped
                },
            ),
            ..self
        }
    }

    /// The state after everyone has been woken.
    pub open spec fn woken(self) -> Self {
        ListState {
            list: Seq::empty(),
            slots: self.slots.map_values(
                |slot: WaitSlot|
                    match slot {
                        WaitSlot::Waiting => WaitSlot::Woken,
                        WaitSlot::Dropped => WaitSlot::Free,
                        _ => slot,
                    },
            ),
        }
    }

    /// The first `count` wakers of those futures that still wait.
    pub open spec fn wakes_of_first(self, count: nat) -> Seq<W>
        decreases count,
    {
        if count == 0 {
            Seq::empty()
        } else {
            let front = self.wakes_of_first((count - 1) as nat);
            let node = self.list[count - 1];
            if self.slots[node.id as int] == WaitSlot::Waiting {
                front.push(node.waker)
            } else {
                front
            }
        }
    }

    /// The wakers of the futures that still wait, latest first.
    pub open spec fn wakes(self) -> Seq<W> {
        self.wakes_of_first(self.list.len())
    }
}

/// A list of wakers.
pub struct WakerList<W> {
    nodes: Vec<WakerNode<W>>,
    slots: Vec<WaitSlot>,
}

impl<W> View for WakerList<W> {
    type V = ListState<W>;

    closed spec fn view(&self) -> ListState<W> {
        ListState { list: self.nodes@, slots: self.slots@ }
    }
}

/// A future that waits until the wakers of a list are woken.
pub struct WaitFut {
    node: Option<usize>,
}

impl<W> WakerList<W> {
    /// An empty list.
    pub fn new() -> (list: Self)
        ensures
            list@ == (ListState::<W> { list: Seq::empty(), slots: Seq::empty() }),
            list@.wf(),
    {
        WakerList { nodes: Vec::new(), slots: Vec::new() }
    }

    /// A future that waits in this list once it is polled.
    pub fn wait(&self) -> (future: WaitFut)
        ensures
            future.slot() is None,
    {
        WaitFut { node: None }
    }

    /// Gives a slot to a future.
    fn allocate(&mut self) -> (id: usize)
        ensures
            old(self)@.vacant(id),
            final(self)@ == (ListState {
                slots: if id < old(self)@.slots.len() {
                    old(self)@.slots.update(id as int, WaitSlot::Waiting)
                } else {
                    old(self)@.slots.push(WaitSlot::Waiting)
                },
                ..old(self)@
            }),
    {
        let mut id: usize = 0;
        while id < self.slots.len()
            invariant
                self@ == old(self)@,
            decreases self.slots.len() - id,
        {
            if self.slots[id] == WaitSlot::Free {
                self.slots[id] = WaitSlot::Waiting;
                return id;
            }
            id = id + 1;
        }
        let id: usize = self.slots.len();
        self.slots.push(WaitSlot::Waiting);
        id
    }

    /// Empties the list, and hands out the wakers of the futures that still wait in the order in
    /// which they are to be woken. The wakers of futures that are gone are dropped.
    pub fn wake_all(&mut self) -> (woken: Vec<W>)
        requires
            old(self)@.wf(),
        ensures
            final(self)@ == old(self)@.woken(),
            final(self)@.wf(),
            woken@ == old(self)@.wakes(),
    {
        let ghost state = self@;
        let mut woken: Vec<W> = Vec::new();
        let ghost mut k: nat = 0;
        proof {
            assert(state.list.skip(0) =~= state.list);
        }
        while self.nodes.len() > 0
            invariant
                state.wf(),
                k <= state.list.len(),
                self.nodes@ == state.list.skip(k as int),
                self.slots@.len() == state.slots.len(),
                woken@ == state.wakes_of_first(k),
                forall|i: int| #![trigger state.list[i]]
                    0 <= i < k ==> self.slots@[state.list[i].id as int]
                        == state.woken().slots[state.list[i].id as int],
                forall|id: int|
                    0 <= id < state.slots.len() && (forall|i: int|
                        0 <= i < k ==> (#[trigger] state.list[i]).id != id) ==> #[trigger] self.slots@[id]
                        == state.slots[id],
            decreases self.nodes.len(),
        {
            let ghost slots = self.slots@;
            let node = self.nodes.remove(0);
            proof {
                assert(state.list.skip(k as int)[0] == state.list[k as int]);
                assert(self.nodes@ =~= state.list.skip(k as int + 1));
                assert(slots[node.id as int] == state.slots[node.id as int]);
            }
            if self.slots[node.id] == WaitSlot::Waiting {
                self.slots[node.id] = WaitSlot::Woken;
                woken.push(node.waker);
            } else {
                self.slots[node.id] = WaitSlot::Free;
            }
            proof {
                k = k + 1;
            }
        }
        proof {
            assert forall|id: int| 0 <= id < state.slots.len() implies #[trigger] self.slots@[id]
                == state.woken().slots[id] by {
                if exists|i: int| 0 <= i < k && (#[trigger] state.list[i]).id == id {
                    let i = choose|i: int| 0 <= i < k && (#[trigger] state.list[i]).id == id;
                    assert(self.slots@[state.list[i].id as int] == state.woken().slots[id]);
                } else {
                    assert(self.slots@[id] == state.slots[id]);
                    assert(!ListState::<W>::listed(state.slots[id]));
                }
            }
            assert(self.slots@ =~= state.woken().slots);
            assert(self.nodes@ =~= Seq::empty());
        }
        woken
    }
}

impl WaitFut {
    /// The slot of the future, once it waits.
    pub closed spec fn slot(self) -> Option<usize> {
        self.node
    }

    /// Whether the future is known to a list in this state.
    pub open spec fn known<W>(self, state: ListState<W>) -> bool {
        self.slot() matches Some(id) ==> state.live(id)
    }

    /// Takes one step. The first one puts the waker in the list; the future is ready once it has
    /// been woken, and may then be used again.
    pub fn poll<W: Clone>(&mut self, list: &mut WakerList<W>, waker: &W) -> (polled: Poll<()>)
        requires
            old(list)@.wf(),
            old(self).known(old(list)@),
        ensures
            final(list)@.wf(),
            final(self).known(final(list)@),
            match old(self).slot() {
                None => {
                    &&& polled is Pending
                    &&& final(self).slot() matches Some(id)
                    &&& old(list)@.vacant(id)
                    &&& exists|w: W| #[trigger]
                        cloned(*waker, w) && final(list)@ == old(list)@.waited(id, w)
                },
                Some(id) => if old(list)@.slots[id as int] == WaitSlot::Woken {
                    &&& polled is Ready
                    &&& final(self).slot() is None
                    &&& final(list)@ == old(list)@.told(id)
                } else {
                    &&& polled is Pending
                    &&& final(self).slot() == Some(id)
                    &&& final(list)@ == old(list)@
                },
            },
    {
        let ghost state = list@;
        match self.node {
            None => {
                let own = waker.clone();
                assert(cloned(*waker, own));
                let id = list.allocate();
                list.nodes.insert(0, WakerNode { id, waker: own });
                self.node = Some(id);
                proof {
                    assert(list@ =~= state.waited(id, own));
                    lemma_waited_wf(state, id, own);
                }
            },
            Some(id) => {
                if list.slots[id] == WaitSlot::Woken {
                    list.slots[id] = WaitSlot::Free;
                    self.node = None;
                    proof {
                        lemma_slot_change_wf(state, id, WaitSlot::Free);
                    }
                    return Poll::Ready(());
                }
            },
        }
        Poll::Pending
    }

    /// Ends the future. Its waker stays in the list until the next wake, and is then dropped.
    pub fn drop<W>(self, list: &mut WakerList<W>)
        requires
            old(list)@.wf(),
            self.known(old(list)@),
        ensures
            final(list)@ == match self.slot() {
                Some(id) => old(list)@.dropped(id),
                None => old(list)@,
            },
            final(list)@.wf(),
    {
        let ghost state = list@;
        if let Some(id) = self.node {
            if list.slots[id] == WaitSlot::Woken {
                list.slots[id] = WaitSlot::Free;
                proof {
                    lemma_slot_change_wf(state, id, WaitSlot::Free);
                }
            } else {
                list.slots[id] = WaitSlot::Dropped;
                proof {
                    lemma_slot_change_wf(state, id, WaitSlot::Dropped);
                }
            }
        }
    }
}

proof fn lemma_waited_wf<W>(state: ListState<W>, id: usize, waker: W)
    requires
        state.wf(),
        state.vacant(id),
    ensures
        state.waited(id, waker).wf(),
{
    let after = state.waited(id, waker);
    assert forall|i: int| 0 <= i < after.list.len() implies (#[trigger] after.list[i]).id
        < after.slots.len() && ListState::<W>::listed(after.slots[after.list[i].id as int]) by {
        if i > 0 {
            assert(after.list[i] == state.list[i - 1]);
        }
    }
    assert forall|i: int, j: int| 0 <= i < j < after.list.len() implies (
    #[trigger] after.list[i]).id != (#[trigger] after.list[j]).id by {
        assert(after.list[j] == state.list[j - 1]);
        if i > 0 {
            assert(after.list[i] == state.list[i - 1]);
        }
    }
    assert forall|other: int|
        0 <= other < after.slots.len() && ListState::<W>::listed(
            #[trigger] after.slots[other],
        ) implies after.has_id(other) by {
        if other == id {
            assert(after.list[0].id == other);
        } else {
            assert(ListState::<W>::listed(state.slots[other]));
            let i = choose|i: int| 0 <= i < state.list.len() && (#[trigger] state.list[i]).id == other;
            assert(after.list[i + 1].id == other);
        }
    }
}

proof fn lemma_slot_change_wf<W>(state: ListState<W>, id: usize, slot: WaitSlot)
    requires
        state.wf(),
        id < state.slots.len(),
        ListState::<W>::listed(slot) == ListState::<W>::listed(state.slots[id as int]),
    ensures
        (ListState { slots: state.slots.update(id as int, slot), ..state }).wf(),
{
    let after = ListState { slots: state.slots.update(id as int, slot), ..state };
    assert forall|other: int|
        0 <= other < after.slots.len() && ListState::<W>::listed(
            #[trigger] after.slots[other],
        ) implies after.has_id(other) by {
        assert(ListState::<W>::listed(state.slots[other]));
        let i = choose|i: int| 0 <= i < state.list.len() && (#[trigger] state.list[i]).id == other;
        assert(after.list[i].id == other);
    }
}

proof fn lemma_wakes_behind_front<W>(
    state: ListState<W>,
    after: ListState<W>,
    node: WakerNode<W>,
    count: nat,
)
    requires
        after.list == seq![node] + state.list,
        count <= state.list.len(),
        forall|i: int| #![trigger state.list[i]]
            0 <= i < state.list.len() ==> after.slots[state.list[i].id as int]
                == state.slots[state.list[i].id as int],
    ensures
        after.wakes_of_first(count + 1) == if after.slots[node.id as int] == WaitSlot::Waiting {
            seq![node.waker] + state.wakes_of_first(count)
        } else {
            state.wakes_of_first(count)
        },
    decreases count,
{
    if count == 0 {
        assert(after.list[0] == node);
        assert(after.wakes_of_first(0) =~= Seq::<W>::empty());
        assert(after.wakes_of_first(1) =~= if after.slots[node.id as int] == WaitSlot::Waiting {
            seq![node.waker]
        } else {
            Seq::<W>::empty()
        });
    } else {
        lemma_wakes_behind_front(state, after, node, (count - 1) as nat);
        assert(after.list[count as int] == state.list[count - 1]);
    }
    assert(after.wakes_of_first(count + 1) =~= if after.slots[node.id as int]
        == WaitSlot::Waiting {
        seq![node.waker] + state.wakes_of_first(count)
    } else {
        state.wakes_of_first(count)
    });
}

proof fn lemma_wakes_contain<W>(state: ListState<W>, i: int, count: nat)
    requires
        0 <= i < count <= state.list.len(),
        state.slots[state.list[i].id as int] == WaitSlot::Waiting,
    ensures
        state.wakes_of_first(count).contains(state.list[i].waker),
    decreases count,
{
    let front = state.wakes_of_first((count - 1) as nat);
    let node = state.list[count - 1];
    if i == count - 1 {
        assert(front.push(node.waker).last() == state.list[i].waker);
    } else {
        lemma_wakes_contain(state, i, (count - 1) as nat);
        let k = front.index_of(state.list[i].waker);
        assert(front.push(node.waker)[k] == state.list[i].waker);
    }
}

/// A future that has begun to wait is the first to be woken, before those that wait already.
pub proof fn latest_is_woken_first<W>(state: ListState<W>, id: usize, waker: W)
    requires
        state.wf(),
        state.vacant(id),
    ensures
        state.waited(id, waker).wakes() == seq![waker] + state.wakes(),
{
    let after = state.waited(id, waker);
    lemma_wakes_behind_front(state, after, WakerNode { id, waker }, state.list.len());
}

/// Of a future that waits and then goes, nobody is told: the others are woken as if it had never
/// waited.
pub proof fn dropping_undoes_waiting<W>(state: ListState<W>, id: usize, waker: W)
    requires
        state.wf(),
        state.vacant(id),
    ensures
        state.waited(id, waker).dropped(id).wakes() == state.wakes(),
{
    let after = state.waited(id, waker).dropped(id);
    lemma_wakes_behind_front(state, after, WakerNode { id, waker }, state.list.len());
}

/// Every future that waits is woken: its waker is handed out, and its next poll is ready.
pub proof fn everyone_waiting_is_woken<W>(state: ListState<W>, id: usize)
    requires
        state.wf(),
        id < state.slots.len(),
        state.slots[id as int] == WaitSlot::Waiting,
    ensures
        state.woken().slots[id as int] == WaitSlot::Woken,
        exists|i: int|
            0 <= i < state.list.len() && (#[trigger] state.list[i]).id == id
                && state.wakes().contains(state.list[i].waker),
{
    assert(state.has_id(id as int));
    let i = choose|i: int| 0 <= i < state.list.len() && (#[trigger] state.list[i]).id == id;
    lemma_wakes_contain(state, i, state.list.len());
}

/// Nobody is woken twice: right after a wake there is nobody left to be woken.
pub proof fn nobody_is_woken_twice<W>(state: ListState<W>)
    ensures
        state.woken().wakes() == Seq::<W>::empty(),
{
}

/// The wakers that are handed out are those of the futures that still wait, each of them once, in
/// the order of the list.
pub proof fn the_waiting_are_woken_in_the_order_of_the_list<W>(state: ListState<W>)
    ensures
        exists|at: Seq<int>| #[trigger] picks_the_waiting(state, at, state.list.len() as int)
            && state.wakes().len() == at.len() && forall|k: int|
            0 <= k < at.len() ==> #[trigger] state.wakes()[k] == state.list[at[k]].waker,
{
    let at = lemma_waiting_positions(state, state.list.len());
    assert(picks_the_waiting(state, at, state.list.len() as int));
}

/// Whether `at` gives the positions, in their order, of those among the first `count` wakers of a
/// list whose futures still wait.
pub open spec fn picks_the_waiting<W>(state: ListState<W>, at: Seq<int>, count: int) -> bool {
    &&& forall|j: int, k: int| 0 <= j < k < at.len() ==> #[trigger] at[j] < #[trigger] at[k]
    &&& forall|k: int|
        0 <= k < at.len() ==> 0 <= #[trigger] at[k] < count
            && state.slots[state.list[at[k]].id as int] == WaitSlot::Waiting
    &&& forall|i: int|
        0 <= i < count && state.slots[(#[trigger] state.list[i]).id as int] == WaitSlot::Waiting
            ==> exists|k: int| 0 <= k < at.len() && #[trigger] at[k] == i
}

proof fn lemma_waiting_positions<W>(state: ListState<W>, count: nat) -> (at: Seq<int>)
    requires
        count <= state.list.len(),
    ensures
        picks_the_waiting(state, at, count as int),
        at.len() == state.wakes_of_first(count).len(),
        forall|k: int|
            0 <= k < at.len() ==> #[trigger] state.wakes_of_first(count)[k]
                == state.list[at[k]].waker,
    decreases count,
{
    if count == 0 {
        Seq::empty()
    } else {
        let front = lemma_waiting_positions(state, (count - 1) as nat);
        if state.slots[state.list[count - 1].id as int] == WaitSlot::Waiting {
            let at = front.push(count - 1);
            assert forall|i: int|
                0 <= i < count && state.slots[(#[trigger] state.list[i]).id as int]
                    == WaitSlot::Waiting implies exists|k: int|
                0 <= k < at.len() && #[trigger] at[k] == i by {
                if i == count - 1 {
                    assert(at[at.len() - 1] == i);
                } else {
                    let k = choose|k: int| 0 <= k < front.len() && #[trigger] front[k] == i;
                    assert(at[k] == i);
                }
            }
            at
        } else {
            front
        }
    }
}

/// What each operation on a list does to its wakers and to the slots of the futures: a future that
/// begins to wait comes first, one that is told or goes gives up its slot alone, and a wake empties
/// the list.
pub proof fn futures_change_their_own_slot<W>(state: ListState<W>, id: usize, waker: W, other: int)
    requires
        state.vacant(id) || state.live(id),
        0 <= other < state.slots.len(),
    ensures
        state.vacant(id) <==> id == state.slots.len() || (id < state.slots.len()
            && state.slots[id as int] == WaitSlot::Free),
        state.live(id) <==> id < state.slots.len() && (state.slots[id as int] == WaitSlot::Waiting
            || state.slots[id as int] == WaitSlot::Woken),
        state.vacant(id) ==> {
            let after = state.waited(id, waker);
            &&& after.list.len() == state.list.len() + 1
            &&& after.list[0] == WakerNode { id, waker }
            &&& after.list.drop_first() == state.list
            &&& after.slots[id as int] == WaitSlot::Waiting
            &&& after.slots.len() == if id < state.slots.len() {
                state.slots.len()
            } else {
                state.slots.len() + 1
            }
            &&& other != id ==> after.slots[other] == state.slots[other]
        },
        state.live(id) ==> {
            let after = state.told(id);
            &&& after.list == state.list
            &&& after.slots.len() == state.slots.len()
            &&& after.slots[id as int] == WaitSlot::Free
            &&& other != id ==> after.slots[other] == state.slots[other]
        },
        state.live(id) ==> {
            let after = state.dropped(id);
            &&& after.list == state.list
            &&& after.slots.len() == state.slots.len()
            &&& state.slots[id as int] == WaitSlot::Woken ==> after.slots[id as int]
                == WaitSlot::Free
            &&& state.slots[id as int] == WaitSlot::Waiting ==> after.slots[id as int]
                == WaitSlot::Dropped
            &&& other != id ==> after.slots[other] == state.slots[other]
        },
        state.woken().list.len() == 0,
        state.woken().slots.len() == state.slots.len(),
        state.slots[other] == WaitSlot::Waiting ==> state.woken().slots[other] == WaitSlot::Woken,
        state.slots[other] == WaitSlot::Dropped ==> state.woken().slots[other] == WaitSlot::Free,
        state.slots[other] == WaitSlot::Woken ==> state.woken().slots[other] == WaitSlot::Woken,
        state.slots[other] == WaitSlot::Free ==> state.woken().slots[other] == WaitSlot::Free,
{
    if state.vacant(id) {
        assert(state.waited(id, waker).list.drop_first() =~= state.list);
    }
}

/// A list has exactly one waker for each future that waits or has gone without having been woken.
pub proof fn each_waiting_future_has_one_waker<W>(state: ListState<W>, id: int)
    requires
        state.wf(),
        0 <= id < state.slots.len(),
    ensures
        (exists|i: int| 0 <= i < state.list.len() && (#[trigger] state.list[i]).id == id) <==> (
        state.slots[id] == WaitSlot::Waiting || state.slots[id] == WaitSlot::Dropped),
        forall|i: int, j: int|
            0 <= i < state.list.len() && 0 <= j < state.list.len() && (#[trigger] state.list[i]).id
                == id && (#[trigger] state.list[j]).id == id ==> i == j,
{
    assert(ListState::<W>::listed(state.slots[id]) ==> state.has_id(id));
}

/// What a wait for another version comes to: an odd version ends it with an error, an even one that
/// is neither the reference nor the one above it with a change, and any other leaves it waiting.
pub proof fn a_wait_ends_at_another_version(current: usize, reference: usize)
    ensures
        current % 2 == 1 ==> change(current, reference) == Some(Err::<usize, usize>(current)),
        current % 2 == 0 && current != reference && current + 1 != reference ==> change(
            current,
            reference,
        ) == Some(Ok::<usize, usize>(current)),
        current % 2 == 0 && (current == reference || current + 1 == reference) ==> change(
            current,
            reference,
        ) is None,
{
}

/// What the operations of a core do to its counters: an update adds two to the version, a writer
/// counts for one, closing sets the lowest bit, and a fresh core has neither updates nor writers.
pub proof fn operations_move_the_counters<T>(core: AsyncCore<T>, init: T, n: usize)
    ensures
        core.made_of(init) ==> call_ensures(AtomicUsize::new, (0usize,), core.version_cell())
            && call_ensures(AtomicUsize::new, (0usize,), core.writer_cell()) && call_ensures(
            async_lock::RwLock::<T>::new,
            (init,),
            core.value_lock(),
        ),
        core.told(n) ==> call_ensures(
            AtomicUsize::load,
            (&core.version_cell(), Ordering::Acquire),
            n,
        ),
        core.version_bumped() ==> exists|previous: usize| #[trigger]
            call_ensures(
                AtomicUsize::fetch_add,
                (&core.version_cell(), 2usize, Ordering::Release),
                previous,
            ),
        core.writer_added() ==> exists|previous: usize| #[trigger]
            call_ensures(
                AtomicUsize::fetch_add,
                (&core.writer_cell(), 1usize, Ordering::Relaxed),
                previous,
            ),
        core.writer_taken_off(n) ==> call_ensures(
            AtomicUsize::fetch_sub,
            (&core.writer_cell(), 1usize, Ordering::Relaxed),
            n,
        ),
        core.closed_bit_added() ==> exists|previous: usize| #[trigger]
            call_ensures(
                AtomicUsize::fetch_or,
                (&core.version_cell(), 1usize, Ordering::Release),
                previous,
            ),
{
}

/// A writer that goes beside others does nothing to the version: all that is entered in its account
/// is that it was taken off the count. The last one sets the closed bit besides.
pub proof fn the_last_writer_closes<T>(core: AsyncCore<T>)
    requires
        call_ensures(AsyncCore::<T>::deregister_writer, (&core,), ()),
    ensures
        exists|previous: usize| #[trigger]
            core.writer_taken_off(previous) && if previous - 1 == 0 {
                core.closed_bit_added() && crate::sensor_core::cells::accounted(
                    seq![Deed::WriterTakenOff, Deed::Closed],
                )
            } else {
                crate::sensor_core::cells::accounted(seq![Deed::WriterTakenOff])
            },
{
}

/// What a wait for a version other than `reference` comes to at version `current`: the end of a
/// closed sensor, a change, or nothing yet.
pub open spec fn change(current: usize, reference: usize) -> Option<SymResult<usize>> {
    if crate::version::raw_closed(current) {
        Some(Err(current))
    } else if crate::version::raw_count(current) != crate::version::raw_count(reference) {
        Some(Ok(current))
    } else {
        None
    }
}

/// Decides what a wait for a version other than `reference` comes to at version `current`.
pub fn check_change(current: usize, reference: usize) -> (outcome: Option<SymResult<usize>>)
    ensures
        outcome == change(current, reference),
{
    let closed = closed_bit_set(current);
    if !same_update(current, reference) || closed {
        return Some(
            if closed {
                Err(current)
            } else {
                Ok(current)
            },
        );
    }
    None
}

/// An asynchronous sensor core. Whoever waits for it waits in a [`WakerList`] beside it.
///
/// The core is shared: what its atomics and its lock hold rests on other threads.
#[verifier::reject_recursive_types(T)]
pub struct AsyncCore<T> {
    version: SharedVersion,
    lock: async_lock::RwLock<T>,
    writers: WriterCount,
}

impl<T> AsyncCore<T> {
    /// The lock of the value.
    pub closed spec fn value_lock(&self) -> async_lock::RwLock<T> {
        self.lock
    }

    /// The counter of the writers.
    pub closed spec fn writer_cell(&self) -> AtomicUsize {
        self.writers.cell()
    }

    /// The counter of the updates.
    pub closed spec fn version_cell(&self) -> AtomicUsize {
        self.version.cell()
    }

    /// Whether the core was made with a lock around `init`, a version of zero and no writers.
    pub open spec fn made_of(&self, init: T) -> bool {
        &&& call_ensures(AtomicUsize::new, (0,), self.version_cell())
        &&& call_ensures(async_lock::RwLock::<T>::new, (init,), self.value_lock())
        &&& call_ensures(AtomicUsize::new, (0,), self.writer_cell())
    }

    /// Whether `version` is what a load of the core's version gave.
    pub open spec fn told(&self, version: usize) -> bool {
        call_ensures(AtomicUsize::load, (&self.version_cell(), Ordering::Acquire), version)
    }

    /// Whether `version` is what the core told while the wakers were those of `list`.
    pub closed spec fn told_beside<W>(&self, list: WakerList<W>, version: usize) -> bool {
        call_ensures(AsyncCore::<T>::version_beside::<W>, (self, &list), version)
    }

    /// Whether an update was added to the core's version.
    pub open spec fn version_bumped(&self) -> bool {
        exists|previous: usize| #[trigger]
            call_ensures(
                AtomicUsize::fetch_add,
                (&self.version_cell(), VERSION_BUMP, Ordering::Release),
                previous,
            )
    }

    /// Whether a writer was added to the core's count.
    pub open spec fn writer_added(&self) -> bool {
        exists|previous: usize| #[trigger]
            call_ensures(AtomicUsize::fetch_add, (&self.writer_cell(), 1, Ordering::Relaxed), previous)
    }

    /// Whether a writer was taken off the core's count when the count was `previous`.
    pub open spec fn writer_taken_off(&self, previous: usize) -> bool {
        call_ensures(AtomicUsize::fetch_sub, (&self.writer_cell(), 1, Ordering::Relaxed), previous)
    }

    /// Whether the closed bit was set in the core's version.
    pub open spec fn closed_bit_added(&self) -> bool {
        exists|previous: usize| #[trigger]
            call_ensures(
                AtomicUsize::fetch_or,
                (&self.version_cell(), CLOSED_BIT, Ordering::Release),
                previous,
            )
    }

    /// Whether `guard` is what the core's lock gave to somebody who tried to read.
    pub closed spec fn read_answered(
        &self,
        guard: Option<async_lock::RwLockReadGuard<'_, T>>,
    ) -> bool {
        call_ensures(try_read_lock::<T>, (&self.value_lock(),), guard)
    }

    /// Whether `guard` is what the core's lock gave to somebody who tried to write.
    pub closed spec fn write_answered(
        &self,
        guard: Option<async_lock::RwLockWriteGuard<'_, T>>,
    ) -> bool {
        call_ensures(try_write_lock::<T>, (&self.value_lock(),), guard)
    }

    /// A core that holds `init`, at version zero and without writers.
    pub fn new(init: T) -> (core: Self)
        ensures
            core.made_of(init),
    {
        AsyncCore {
            version: SharedVersion::new(),
            lock: async_lock::RwLock::new(init),
            writers: WriterCount::new(0),
        }
    }

    /// The current version.
    pub fn version(&self) -> (version: usize)
        ensures
            self.told(version),
    {
        self.version.load(Ordering::Acquire)
    }

    /// The current version, looked at while the wakers are those of `list`.
    fn version_beside<W>(&self, list: &WakerList<W>) -> (version: usize)
        ensures
            self.told(version),
    {
        self.version()
    }

    /// Counts an update.
    pub fn bump_version(&self)
        ensures
            self.version_bumped(),
            crate::sensor_core::cells::accounted(seq![Deed::Updated]),
    {
        let mut account = Account::open();
        self.version.add_update(Ordering::Release, &mut account);
        assert(account.deeds() =~= seq![Deed::Updated]);
        account.finish();
    }

    /// A read guard, if no writer holds the lock or waits for it.
    pub fn try_read(&self) -> (guard: Option<async_lock::RwLockReadGuard<'_, T>>)
        ensures
            self.read_answered(guard),
    {
        try_read_lock(&self.lock)
    }

    /// A write guard, if nobody holds the lock.
    pub fn try_write(&self) -> (guard: Option<async_lock::RwLockWriteGuard<'_, T>>)
        ensures
            self.write_answered(guard),
    {
        try_write_lock(&self.lock)
    }

    /// The lock, to wait for.
    pub fn lock(&self) -> (lock: &async_lock::RwLock<T>)
        ensures
            *lock == self.value_lock(),
    {
        &self.lock
    }

    /// Counts one more writer.
    pub fn register_writer(&self)
        ensures
            self.writer_added(),
            crate::sensor_core::cells::accounted(seq![Deed::WriterCounted]),
    {
        let mut account = Account::open();
        let previous: usize = self.writers.count_one(&mut account);
        assert(account.deeds() =~= seq![Deed::WriterCounted]);
        account.finish();
        assert(call_ensures(
            AtomicUsize::fetch_add,
            (&self.writer_cell(), 1, Ordering::Relaxed),
            previous,
        ));
    }

    /// Counts one writer less, and closes the sensor with the last one.
    pub fn deregister_writer(&self)
        ensures
            exists|previous: usize| #[trigger]
                self.writer_taken_off(previous) && (previous == 1 ==> self.closed_bit_added()) && crate::sensor_core::cells::accounted(
                    if previous == 1 {
                        seq![Deed::WriterTakenOff, Deed::Closed]
                    } else {
                        seq![Deed::WriterTakenOff]
                    },
                ),
    {
        let mut account = Account::open();
        let previous: usize = self.writers.take_one_off(&mut account);
        assert(self.writer_taken_off(previous));
        if last_writer(previous) {
            self.version.close(&self.writers, previous, Ordering::Release, &mut account);
        }
        assert(account.deeds() =~= if previous == 1 {
            seq![Deed::WriterTakenOff, Deed::Closed]
        } else {
            seq![Deed::WriterTakenOff]
        });
        account.finish();
    }

    /// A future that waits for a version other than `reference_version`.
    pub fn wait_changed(&self, reference_version: usize) -> (future: WaitVersionFut)
        ensures
            future.reference() == reference_version,
            future.slot() is None,
    {
        WaitVersionFut { reference_version, wait_fut: WaitFut { node: None } }
    }
}

/// A future that waits for a version other than a reference version.
pub struct WaitVersionFut {
    reference_version: usize,
    wait_fut: WaitFut,
}

impl WaitVersionFut {
    /// The reference version.
    pub closed spec fn reference(self) -> usize {
        self.reference_version
    }

    /// The slot of the future, once it waits.
    pub closed spec fn slot(self) -> Option<usize> {
        self.wait_fut.slot()
    }

    /// Whether the future is known to a list in this state.
    pub open spec fn known<W>(self, state: ListState<W>) -> bool {
        self.slot() matches Some(id) ==> state.live(id)
    }

    /// Takes one step. Where the version that the core tells does not end the wait, the waker is
    /// put in the list and the version is looked at once more, so that no update is missed.
    ///
    /// The result is what [`check_change`] makes of a version that the core told during the call.
    pub fn poll<T, W: Clone>(
        &mut self,
        core: &AsyncCore<T>,
        list: &mut WakerList<W>,
        waker: &W,
    ) -> (polled: Poll<SymResult<usize>>)
        requires
            old(list)@.wf(),
            old(self).known(old(list)@),
        ensures
            final(list)@.wf(),
            final(self).known(final(list)@),
            final(self).reference() == old(self).reference(),
            polled matches Poll::Ready(outcome) ==> exists|current: usize| #[trigger]
                core.told(current) && change(current, old(self).reference()) == Some(outcome),
            polled is Pending ==> final(self).slot() is Some && exists|current: usize| #[trigger]
                core.told(current) && change(current, old(self).reference()) is None,
            polled is Pending ==> exists|current: usize| #[trigger]
                core.told_beside(*final(list), current) && change(current, old(self).reference())
                    is None,
            polled matches Poll::Ready(outcome) ==> exists|current: usize| #[trigger]
                core.told_beside(*final(list), current) && change(current, old(self).reference())
                    == Some(outcome),
            final(self).slot() != old(self).slot() ==> exists|current: usize| #[trigger]
                core.told_beside(*old(list), current) && change(current, old(self).reference())
                    is None,
            final(self).slot() == old(self).slot() ==> final(list)@ == old(list)@,
            old(self).slot() is Some ==> final(self).slot() == old(self).slot(),
            old(self).slot() is None && final(self).slot() is Some ==> old(list)@.vacant(
                final(self).slot()->0,
            ) && exists|w: W| #[trigger]
                cloned(*waker, w) && final(list)@ == old(list)@.waited(final(self).slot()->0, w),
    {
        let current = core.version_beside(list);
        if let Some(outcome) = check_change(current, self.reference_version) {
            assert(core.told_beside(*list, current));
            return Poll::Ready(outcome);
        }
        assert(core.told_beside(*list, current));
        assert(change(current, old(self).reference()) is None);
        if self.wait_fut.node.is_none() {
            let _ = self.wait_fut.poll(list, waker);
            let current = core.version_beside(list);
            if let Some(outcome) = check_change(current, self.reference_version) {
                assert(core.told_beside(*list, current));
                return Poll::Ready(outcome);
            }
            assert(core.told_beside(*list, current));
        }
        Poll::Pending
    }

    /// Ends the future. Its waker stays in the list until the next wake, and is then dropped.
    pub fn drop<W>(self, list: &mut WakerList<W>)
        requires
            old(list)@.wf(),
            self.known(old(list)@),
        ensures
            final(list)@ == match self.slot() {
                Some(id) => old(list)@.dropped(id),
                None => old(list)@,
            },
            final(list)@.wf(),
    {
        self.wait_fut.drop(list)
    }
}

/// The guards that are given out are those of the lock.
pub(crate) proof fn guards_are_the_locks<T>(
    core: AsyncCore<T>,
    read: Option<async_lock::RwLockReadGuard<'_, T>>,
    write: Option<async_lock::RwLockWriteGuard<'_, T>>,
)
    ensures
        core.read_answered(read) ==> call_ensures(try_read_lock::<T>, (&core.value_lock(),), read),
        core.write_answered(write) ==> call_ensures(
            try_write_lock::<T>,
            (&core.value_lock(),),
            write,
        ),
{
}

/// A wake hands out the waker of each future that still waits and leaves none behind, and a future
/// is ready exactly if it has been woken since it began to wait.
pub proof fn wakes_and_polls_go_by_the_slots<W: Clone>(
    waker: &W,
    polled: Poll<()>,
    woken: Vec<W>,
)
    ensures
        forall|list: &mut WakerList<W>|
            #[trigger] call_ensures(WakerList::<W>::wake_all, (list,), woken) ==> (*final(
                list))@.list.len() == 0 && forall|i: int|
                0 <= i < (*list)@.list.len() && (*list)@.slots[(
                #[trigger] (*list)@.list[i]).id as int] == WaitSlot::Waiting ==> woken@.contains(
                    (*list)@.list[i].waker,
                ),
        forall|future: &mut WaitFut, list: &mut WakerList<W>|
            #[trigger] call_ensures(WaitFut::poll::<W>, (future, list, waker), polled) ==> {
                let before = (*list)@;
                let after = (*final(list))@;
                match (*future).slot() {
                    None => {
                        &&& polled is Pending
                        &&& (*final(future)).slot() matches Some(id) && after.list.len()
                            == before.list.len() + 1 && after.list[0].id == id
                            && after.slots[id as int] == WaitSlot::Waiting
                        &&& cloned(*waker, after.list[0].waker)
                        &&& after.list.drop_first() == before.list
                    },
                    Some(id) => {
                        &&& polled is Ready <==> before.slots[id as int] == WaitSlot::Woken
                        &&& polled is Pending ==> after == before && (*final(future)).slot()
                            == Some(id)
                        &&& polled is Ready ==> (*final(future)).slot() is None && after.list
                            == before.list
                    },
                }
            },
{
    assert forall|state: ListState<W>, i: int|
        0 <= i < state.list.len() && state.slots[(#[trigger] state.list[i]).id as int]
            == WaitSlot::Waiting implies (#[trigger] state.wakes()).contains(
        state.list[i].waker,
    ) by {
        lemma_wakes_contain(state, i, state.list.len());
    }
    assert forall|state: ListState<W>, id: usize, w: W| (#[trigger] state.waited(
        id,
        w,
    )).list.drop_first() == state.list by {
        assert(state.waited(id, w).list.drop_first() =~= state.list);
    }
}

} // verus!
