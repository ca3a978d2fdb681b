//! A sensor core whose lock is a count of permits.
//!
//! A read takes one permit and a write takes all of them. Requests wait in a reader-writer queue,
//! reads that wait for the next version in a list of their own, and reads are woken in clusters:
//! the last read of a full cluster is told to wake the next one.

use vstd::prelude::*;

use crate::version::{closed_bit_set, VERSION_BUMP};

verus! {

/// The most requests that are woken in one go.
pub const MAX_WAKE_CLUSTERING: usize = 8;

/// The permits of a lock that nobody holds, all of which a write takes.
pub const WRITE_PERMIT_VALUE: usize = usize::MAX;

/// The most permits that reads can hold.
pub const MAX_READ_PERMITS: usize = WRITE_PERMIT_VALUE >> 1;

/// The bit of a node's state that is set once its request has been granted.
pub const STATE_COMPLETE_BIT: u8 = 1;

/// The bit of a node's state that asks its owner to wake the next cluster.
pub const STATE_WAKE_NEXT_BIT: u8 = 2;

/// A request that waits.
pub struct Node<W> {
    /// What wakes the requesting future.
    pub waker: W,
    /// How far the request is: zero while it waits, then the bits above.
    pub state: u8,
    /// Whether all permits are requested.
    pub is_write: bool,
}

/// The state of a core.
#[verifier::ext_equal]
pub struct PermitState<T, W> {
    /// The permits that nobody holds.
    pub lock_state: usize,
    /// The current version.
    pub version: usize,
    /// The reader-writer queue, first request first.
    pub rw: Seq<Node<W>>,
    /// Whether the front of the queue is in the hands of a woken request.
    pub rw_head_taken: bool,
    /// Reads that wait for the next version, first request first.
    pub pr: Seq<Node<W>>,
    /// Futures that wait for the next version, latest request first.
    pub wc: Seq<Node<W>>,
    /// The sensor value.
    pub data: T,
}

/// A sensor core.
pub struct Core<T, W> {
    /// The permits that nobody holds.
    pub lock_state: usize,
    /// The current version.
    pub version: usize,
    /// The reader-writer queue.
    pub rw: Vec<Node<W>>,
    /// Whether the front of the queue is in the hands of a woken request, which then wakes it.
    pub rw_head_taken: bool,
    /// Reads that wait for the next version.
    pub pr: Vec<Node<W>>,
    /// Futures that wait for the next version, latest first.
    pub wc: Vec<Node<W>>,
    /// The sensor value.
    pub data: T,
}

impl<T, W> View for Core<T, W> {
    type V = PermitState<T, W>;

    open spec fn view(&self) -> PermitState<T, W> {
        PermitState {
            lock_state: self.lock_state,
            version: self.version,
            rw: self.rw@,
            rw_head_taken: self.rw_head_taken,
            pr: self.pr@,
            wc: self.wc@,
            data: self.data,
        }
    }
}

/// The requests that a notification completes.
pub struct Notified<W> {
    /// The future at the head of those that waited for the version, if there was one.
    pub changed: Vec<Node<W>>,
    /// The futures behind it, which it wakes.
    pub changed_rest: Vec<Node<W>>,
    /// The cluster of reads.
    pub reads: Vec<Node<W>>,
}

/// The requests that are completed when the front of a queue is served.
pub struct Served<W> {
    /// The cluster of reads, to be woken.
    pub woken: Vec<Node<W>>,
    /// The write, which is not woken.
    pub write: Option<Node<W>>,
}

/// A permit count after `added` and `taken` permits have come and gone, at the width of `usize`.
pub open spec fn permits_after(count: usize, added: int, taken: int) -> usize {
    ((count + added - taken) % (usize::MAX + 1)) as usize
}

/// The number of reads before the first write in a queue.
pub open spec fn leading_reads<W>(queue: Seq<Node<W>>) -> nat
    decreases queue.len(),
{
    if queue.len() == 0 || queue[0].is_write {
        0
    } else {
        1 + leading_reads(queue.drop_first())
    }
}

/// The size of the cluster of `len` requests that is woken.
pub open spec fn cluster_len(len: nat) -> nat {
    if len < MAX_WAKE_CLUSTERING {
        len
    } else {
        MAX_WAKE_CLUSTERING as nat
    }
}

/// A cluster after it has been completed: the last node of a full one is asked to wake the next.
pub open spec fn completed<W>(cluster: Seq<Node<W>>) -> Seq<Node<W>> {
    cluster.map(
        |i: int, node: Node<W>|
            Node {
                state: if i + 1 == MAX_WAKE_CLUSTERING {
                    3u8
                } else {
                    STATE_COMPLETE_BIT
                },
                ..node
            },
    )
}

impl<T, W> PermitState<T, W> {
    /// Whether the state is one that a core can be in: only reads are pending.
    pub open spec fn wf(self) -> bool {
        forall|i: int| 0 <= i < self.pr.len() ==> !(#[trigger] self.pr[i]).is_write
    }

    /// Whether the front of the queue can be woken.
    pub open spec fn has_head(self) -> bool {
        self.rw.len() > 0 && !self.rw_head_taken
    }

    /// The number of reads in the next cluster.
    pub open spec fn read_cluster(self) -> nat {
        cluster_len(leading_reads(self.rw))
    }

    /// The reads of the next cluster, completed.
    pub open spec fn woken_reads(self) -> Seq<Node<W>> {
        completed(self.rw.take(self.read_cluster() as int))
    }

    /// The state after the next cluster of reads has been woken with `permits` permits: each read
    /// keeps one and the others are given back.
    pub open spec fn reads_woken(self, permits: usize) -> Self {
        let n = self.read_cluster();
        PermitState {
            lock_state: permits_after(self.lock_state, permits as int, n as int),
            rw: self.rw.skip(n as int),
            rw_head_taken: n == MAX_WAKE_CLUSTERING,
            ..self
        }
    }

    /// Whether permits can be added to `permits` so that a whole cluster can be woken.
    pub open spec fn permits_suffice(self, permits: usize) -> bool {
        permits < MAX_WAKE_CLUSTERING ==> self.lock_state >= WRITE_PERMIT_VALUE - MAX_READ_PERMITS
    }

    /// The state after a version has been counted and those that waited for it have been taken
    /// out of their lists. With nobody queued the pending reads become the queue.
    pub open spec fn pending_queued(self) -> Self {
        PermitState { rw: self.rw + self.pr, pr: Seq::empty(), ..self }
    }

    /// Whether the pending reads are woken at once: nobody is queued before them, and permits are
    /// at hand or to be had.
    pub open spec fn pending_wakeable(self, owned_permits: usize) -> bool {
        &&& self.pr.len() > 0
        &&& self.rw.len() == 0
        &&& !self.rw_head_taken
        &&& (owned_permits > 0 || self.lock_state > MAX_WAKE_CLUSTERING)
    }

    /// The state with a cluster's worth of permits taken.
    pub open spec fn cluster_taken(self) -> Self {
        PermitState { lock_state: (self.lock_state - MAX_WAKE_CLUSTERING) as usize, ..self }
    }

    /// The state after a notification.
    pub open spec fn notified(self, owned_permits: usize) -> Self {
        let counted = PermitState {
            version: crate::version::raw_next(self.version),
            wc: Seq::empty(),
            ..self
        };
        if !self.pending_wakeable(owned_permits) {
            counted.pending_queued()
        } else if owned_permits > 0 {
            counted.pending_queued().reads_woken(owned_permits)
        } else {
            counted.pending_queued().cluster_taken().reads_woken(MAX_WAKE_CLUSTERING)
        }
    }

    /// Whether the front of the queue gets its permits now.
    pub open spec fn head_wakeable(self, holds_write_permit: bool) -> bool {
        &&& self.has_head()
        &&& (holds_write_permit || if self.rw[0].is_write {
            self.lock_state == WRITE_PERMIT_VALUE
        } else {
            self.lock_state > MAX_WAKE_CLUSTERING
        })
    }

    /// The state after the front of the queue has been served, where that can be done.
    pub open spec fn queue_woken(self, holds_write_permit: bool) -> Self {
        if !self.head_wakeable(holds_write_permit) {
            self
        } else if self.rw[0].is_write {
            PermitState {
                lock_state: if holds_write_permit {
                    self.lock_state
                } else {
                    0
                },
                rw: self.rw.skip(1),
                ..self
            }
        } else if holds_write_permit {
            self.reads_woken(WRITE_PERMIT_VALUE)
        } else {
            self.cluster_taken().reads_woken(MAX_WAKE_CLUSTERING)
        }
    }

    /// The requests that are completed when the front of the queue is served.
    pub open spec fn queue_served(self, holds_write_permit: bool) -> Seq<Node<W>> {
        if !self.head_wakeable(holds_write_permit) {
            Seq::empty()
        } else if self.rw[0].is_write {
            completed(self.rw.take(1))
        } else {
            self.woken_reads()
        }
    }

    /// The reads that are completed, and to be woken, when the front of the queue is served.
    pub open spec fn queue_wakes(self, holds_write_permit: bool) -> Seq<Node<W>> {
        if self.has_head() && self.rw[0].is_write {
            Seq::empty()
        } else {
            self.queue_served(holds_write_permit)
        }
    }

    /// The write that is completed when the front of the queue is served. It is not woken: its
    /// owner finds it completed when it is polled next.
    pub open spec fn queue_write(self, holds_write_permit: bool) -> Option<Node<W>> {
        if self.head_wakeable(holds_write_permit) && self.rw[0].is_write {
            Some(Node { state: STATE_COMPLETE_BIT, ..self.rw[0] })
        } else {
            None
        }
    }
}

proof fn lemma_leading_reads_bound<W>(queue: Seq<Node<W>>)
    ensures
        leading_reads(queue) <= queue.len(),
    decreases queue.len(),
{
    if queue.len() > 0 && !queue[0].is_write {
        lemma_leading_reads_bound(queue.drop_first());
    }
}

proof fn lemma_permits_after(count: usize, added: int, taken: int)
    ensures
        0 <= count + added - taken <= usize::MAX ==> permits_after(count, added, taken) == count
            + added - taken,
        usize::MAX < count + added - taken <= 2 * usize::MAX ==> permits_after(count, added, taken)
            == count + added - taken - usize::MAX - 1,
        -usize::MAX <= count + added - taken < 0 ==> permits_after(count, added, taken) == count
            + added - taken + usize::MAX + 1,
{
    let total = count + added - taken;
    let modulus = usize::MAX + 1;
    if 0 <= total <= usize::MAX {
        vstd::arithmetic::div_mod::lemma_small_mod(total as nat, modulus as nat);
    } else if usize::MAX < total <= 2 * usize::MAX {
        vstd::arithmetic::div_mod::lemma_small_mod((total - modulus) as nat, modulus as nat);
        vstd::arithmetic::div_mod::lemma_mod_add_multiples_vanish(total - modulus, modulus);
    } else if -usize::MAX <= total < 0 {
        vstd::arithmetic::div_mod::lemma_small_mod((total + modulus) as nat, modulus as nat);
        vstd::arithmetic::div_mod::lemma_mod_add_multiples_vanish(total, modulus);
    }
}

impl<T, W> Core<T, W> {
    /// A core that holds `init`, with nobody queued.
    pub fn new(init: T) -> (core: Self)
        ensures
            core@ == (PermitState::<T, W> {
                lock_state: WRITE_PERMIT_VALUE,
                version: 0,
                rw: Seq::empty(),
                rw_head_taken: false,
                pr: Seq::empty(),
                wc: Seq::empty(),
                data: init,
            }),
    {
        Core {
            lock_state: WRITE_PERMIT_VALUE,
            version: 0,
            rw: Vec::new(),
            rw_head_taken: false,
            pr: Vec::new(),
            wc: Vec::new(),
            data: init,
        }
    }

    /// Takes `amount` read permits. The permits acquired are either 0 or the requested amount, and
    /// at least one permit is left.
    pub fn get_read_permits(&mut self, amount: usize) -> (permits: usize)
        ensures
            permits == if old(self).lock_state > amount {
                amount
            } else {
                0
            },
            final(self)@ == (PermitState {
                lock_state: (old(self).lock_state - permits) as usize,
                ..old(self)@
            }),
    {
        if self.lock_state > amount {
            self.lock_state = self.lock_state - amount;
            return amount;
        }
        0
    }

    /// Gives `amount` read permits back.
    pub fn release_read_permits(&mut self, amount: usize)
        ensures
            final(self)@ == (PermitState {
                lock_state: permits_after(old(self).lock_state, amount as int, 0),
                ..old(self)@
            }),
    {
        proof {
            lemma_permits_after(self.lock_state, amount as int, 0);
        }
        self.lock_state = self.lock_state.wrapping_add(amount);
    }

    /// Takes `amount` more read permits for somebody who holds one already, which is possible
    /// while reads hold at most [`MAX_READ_PERMITS`].
    pub fn increase_read_permits(&mut self, amount: usize)
        requires
            old(self).lock_state >= WRITE_PERMIT_VALUE - MAX_READ_PERMITS,
        ensures
            final(self)@ == (PermitState {
                lock_state: permits_after(old(self).lock_state, 0, amount as int),
                ..old(self)@
            }),
    {
        proof {
            lemma_permits_after(self.lock_state, 0, amount as int);
        }
        self.lock_state = self.lock_state.wrapping_sub(amount);
    }

    /// Takes all permits, if nobody holds one.
    pub fn get_write_permit(&mut self) -> (acquired: bool)
        ensures
            acquired == (old(self).lock_state == WRITE_PERMIT_VALUE),
            final(self)@ == (PermitState {
                lock_state: if acquired {
                    0
                } else {
                    old(self).lock_state
                },
                ..old(self)@
            }),
    {
        if self.lock_state == WRITE_PERMIT_VALUE {
            self.lock_state = 0;
            return true;
        }
        false
    }

    /// Gives all permits back.
    pub fn release_write_permit(&mut self)
        ensures
            final(self)@ == (PermitState { lock_state: WRITE_PERMIT_VALUE, ..old(self)@ }),
    {
        self.lock_state = WRITE_PERMIT_VALUE;
    }
}

proof fn lemma_permits_compose(count: usize, added: int, taken: int, more: int, less: int)
    ensures
        permits_after(permits_after(count, added, taken), more, less) == permits_after(
            count,
            added + more,
            taken + less,
        ),
        permits_after(count, 0, 0) == count,
{
    let modulus = usize::MAX + 1;
    let total = count + added - taken;
    let change = more - less;
    lemma_permits_after(count, 0, 0);
    vstd::arithmetic::div_mod::lemma_add_mod_noop(total, change, modulus);
    vstd::arithmetic::div_mod::lemma_add_mod_noop(total % modulus, change, modulus);
    vstd::arithmetic::div_mod::lemma_mod_twice(total, modulus);
    assert(permits_after(count, added, taken) == total % modulus);
}

proof fn lemma_completed_step<W>(nodes: Seq<Node<W>>, k: int, state: u8)
    requires
        0 <= k < nodes.len(),
        k < MAX_WAKE_CLUSTERING,
        state == if k + 1 == MAX_WAKE_CLUSTERING {
            3u8
        } else {
            STATE_COMPLETE_BIT
        },
    ensures
        completed(nodes.take(k + 1)) == completed(nodes.take(k)).push(Node { state, ..nodes[k] }),
{
    assert(completed(nodes.take(k + 1)) =~= completed(nodes.take(k)).push(
        Node { state, ..nodes[k] },
    ));
}

/// The state of the `index`th node of a cluster once it is completed.
fn completed_state(index: usize) -> (state: u8)
    requires
        index < MAX_WAKE_CLUSTERING,
    ensures
        state == if index + 1 == MAX_WAKE_CLUSTERING {
            3u8
        } else {
            STATE_COMPLETE_BIT
        },
{
    assert(1u8 | 2u8 == 3u8) by (bit_vector);
    if index + 1 == MAX_WAKE_CLUSTERING {
        STATE_COMPLETE_BIT | STATE_WAKE_NEXT_BIT
    } else {
        STATE_COMPLETE_BIT
    }
}

impl<T, W> Core<T, W> {
    /// Counts a version and completes those that waited for it: the first future that waits for a
    /// change, and the pending reads if nobody is queued before them and permits are at hand.
    /// Otherwise the pending reads are queued.
    ///
    /// `owned_permits` are the read permits that the caller gives away.
    pub fn notify_all(&mut self, owned_permits: usize) -> (notified: Notified<W>)
        requires
            old(self)@.wf(),
            old(self)@.pending_wakeable(owned_permits) && owned_permits > 0
                ==> old(self)@.permits_suffice(owned_permits),
        ensures
            final(self)@.wf(),
            final(self)@ == old(self)@.notified(owned_permits),
            notified.changed@ == if old(self)@.wc.len() > 0 {
                seq![Node { state: 3u8, ..old(self)@.wc[0] }]
            } else {
                Seq::empty()
            },
            notified.changed_rest@ == if old(self)@.wc.len() > 0 {
                old(self)@.wc.skip(1)
            } else {
                Seq::empty()
            },
            notified.reads@ == if old(self)@.pending_wakeable(owned_permits) {
                old(self)@.pending_queued().woken_reads()
            } else {
                Seq::empty()
            },
    {
        let ghost state = self@;
        self.version = self.version.wrapping_add(VERSION_BUMP);
        let mut changed: Vec<Node<W>> = Vec::new();
        let mut changed_rest: Vec<Node<W>> = Vec::new();
        std::mem::swap(&mut changed_rest, &mut self.wc);
        if changed_rest.len() > 0 {
            let mut head = changed_rest.remove(0);
            assert(1u8 | 2u8 == 3u8) by (bit_vector);
            head.state = STATE_COMPLETE_BIT | STATE_WAKE_NEXT_BIT;
            changed.push(head);
            assert(changed_rest@ =~= state.wc.skip(1));
            assert(changed@ =~= seq![Node { state: 3u8, ..state.wc[0] }]);
        }
        let mut reads: Vec<Node<W>> = Vec::new();
        if self.pr.len() == 0 {
            assert(state.rw + state.pr =~= state.rw);
            assert(state.pr =~= Seq::empty());
            return Notified { changed, changed_rest, reads };
        }
        if self.rw.len() > 0 || self.rw_head_taken {
            self.rw.append(&mut self.pr);
            return Notified { changed, changed_rest, reads };
        }
        self.rw.append(&mut self.pr);
        let mut permits: usize = owned_permits;
        if permits == 0 {
            permits = self.get_read_permits(MAX_WAKE_CLUSTERING);
        }
        if permits == 0 {
            return Notified { changed, changed_rest, reads };
        }
        self.rw_head_taken = true;
        reads = self.wake_next_read(permits);
        Notified { changed, changed_rest, reads }
    }

    /// Wakes the next cluster of reads from the front of the queue, which the caller has taken.
    ///
    /// `permits` are the read permits that are given away to the cluster; permits that are
    /// missing are added and permits that are not needed are given back.
    pub fn wake_next_read(&mut self, permits: usize) -> (woken: Vec<Node<W>>)
        requires
            old(self)@.rw_head_taken,
            old(self)@.rw.len() > 0,
            !old(self)@.rw[0].is_write,
            old(self)@.permits_suffice(permits),
        ensures
            final(self)@ == old(self)@.reads_woken(permits),
            woken@ == old(self)@.woken_reads(),
    {
        let ghost state = self@;
        let mut permits: usize = permits;
        let ghost given = permits;
        if permits < MAX_WAKE_CLUSTERING {
            self.increase_read_permits(MAX_WAKE_CLUSTERING - permits);
            permits = MAX_WAKE_CLUSTERING;
        }
        let mut woken: Vec<Node<W>> = Vec::new();
        proof {
            lemma_leading_reads_bound(state.rw);
            lemma_permits_compose(state.lock_state, 0, permits - given, 0, 0);
            assert(state.rw.skip(0) =~= state.rw);
            assert(woken@ =~= completed(state.rw.take(0)));
        }
        while woken.len() < MAX_WAKE_CLUSTERING && self.rw.len() > 0 && !self.rw[0].is_write
            invariant
                woken.len() <= MAX_WAKE_CLUSTERING,
                woken.len() <= state.rw.len(),
                self.rw@ == state.rw.skip(woken.len() as int),
                woken@ == completed(state.rw.take(woken.len() as int)),
                leading_reads(state.rw) == woken.len() + leading_reads(self.rw@),
                self.lock_state == permits_after(state.lock_state, 0, permits - given),
                self.version == state.version,
                self.rw_head_taken,
                self.pr@ == state.pr,
                self.wc@ == state.wc,
                self.data == state.data,
            decreases self.rw.len(),
        {
            let ghost k = woken.len() as int;
            let mut node = self.rw.remove(0);
            node.state = completed_state(woken.len());
            proof {
                assert(state.rw.skip(k)[0] == state.rw[k]);
                lemma_completed_step(state.rw, k, node.state);
                assert(self.rw@ =~= state.rw.skip(k + 1));
                assert(state.rw.skip(k).drop_first() =~= self.rw@);
            }
            woken.push(node);
        }
        if woken.len() < MAX_WAKE_CLUSTERING {
            self.rw_head_taken = false;
        }
        let releasable: usize = permits - woken.len();
        proof {
            lemma_permits_compose(
                state.lock_state,
                0,
                permits - given,
                releasable as int,
                0,
            );
            assert(permits_after(state.lock_state, releasable as int, permits - given)
                == permits_after(state.lock_state, given as int, woken.len() as int));
        }
        if releasable > 0 {
            self.release_read_permits(releasable);
        }
        woken
    }

    /// Completes the next cluster of futures that waited for a change, and returns it with those
    /// that are left for its last member to wake.
    pub fn wake_next_wait_changed(waiting: Vec<Node<W>>) -> (result: (Vec<Node<W>>, Vec<Node<W>>))
        requires
            waiting.len() > 0,
        ensures
            result.0@ == completed(waiting@.take(cluster_len(waiting@.len()) as int)),
            result.1@ == waiting@.skip(cluster_len(waiting@.len()) as int),
    {
        let mut rest = waiting;
        let mut woken: Vec<Node<W>> = Vec::new();
        proof {
            assert(waiting@.skip(0) =~= waiting@);
            assert(woken@ =~= completed(waiting@.take(0)));
        }
        while woken.len() < MAX_WAKE_CLUSTERING && rest.len() > 0
            invariant
                woken.len() <= MAX_WAKE_CLUSTERING,
                woken.len() <= waiting@.len(),
                rest@ == waiting@.skip(woken.len() as int),
                woken@ == completed(waiting@.take(woken.len() as int)),
            decreases rest.len(),
        {
            let ghost k = woken.len() as int;
            let mut node = rest.remove(0);
            node.state = completed_state(woken.len());
            proof {
                assert(waiting@.skip(k)[0] == waiting@[k]);
                lemma_completed_step(waiting@, k, node.state);
                assert(rest@ =~= waiting@.skip(k + 1));
            }
            woken.push(node);
        }
        (woken, rest)
    }

    /// Serves the front of the queue, where it can be served: a cluster of reads, or one write.
    ///
    /// With `holds_write_permit` all permits are in the hands of the caller, who gives them away.
    /// Where nobody is served nothing changes, and a caller who holds permits keeps them.
    pub fn wake_rw_queue(&mut self, holds_write_permit: bool) -> (served: Served<W>)
        ensures
            final(self)@ == old(self)@.queue_woken(holds_write_permit),
            served.woken@ == old(self)@.queue_wakes(holds_write_permit),
            served.write == old(self)@.queue_write(holds_write_permit),
    {
        let ghost state = self@;
        if self.rw.len() == 0 || self.rw_head_taken {
            return Served { woken: Vec::new(), write: None };
        }
        if !self.rw[0].is_write {
            let mut permits: usize = WRITE_PERMIT_VALUE;
            if !holds_write_permit {
                permits = self.get_read_permits(MAX_WAKE_CLUSTERING);
                if permits != MAX_WAKE_CLUSTERING {
                    return Served { woken: Vec::new(), write: None };
                }
            }
            self.rw_head_taken = true;
            return Served { woken: self.wake_next_read(permits), write: None };
        }
        if !holds_write_permit {
            if !self.get_write_permit() {
                return Served { woken: Vec::new(), write: None };
            }
        }
        let mut node = self.rw.remove(0);
        node.state = STATE_COMPLETE_BIT;
        proof {
            assert(self.rw@ =~= state.rw.skip(1));
        }
        Served { woken: Vec::new(), write: Some(node) }
    }
}

/// Exclusive access to the data of a core.
pub struct WriteGuard {
    _private: (),
}

impl WriteGuard {
    /// The data that the guard gives access to.
    pub fn deref<'a, T, W>(&self, core: &'a Core<T, W>) -> (data: &'a T)
        ensures
            *data == core.data,
    {
        &core.data
    }

    /// The data that the guard gives access to.
    pub fn deref_mut<'a, T, W>(&self, core: &'a mut Core<T, W>) -> (data: &'a mut T)
        ensures
            *data == old(core).data,
            final(core)@ == (PermitState { data: *final(data), ..old(core)@ }),
    {
        &mut core.data
    }

    /// Gives the permits of the guard to the front of the queue, and returns the requests that
    /// are completed by it.
    pub fn drop<T, W>(self, core: &mut Core<T, W>) -> (served: Served<W>)
        ensures
            final(core)@ == old(core)@.queue_woken(true),
            served.woken@ == old(core)@.queue_wakes(true),
            served.write == old(core)@.queue_write(true),
    {
        core.wake_rw_queue(true)
    }
}

/// Shared access to the data of a core.
pub struct ReadGuard {
    _private: (),
}

impl ReadGuard {
    /// The guard of a read that has been completed and so owns one permit.
    pub fn new<W>(node: &Node<W>) -> (guard: Option<ReadGuard>)
        ensures
            guard is Some <==> !node.is_write && node.state % 2 == 1,
    {
        let state = node.state;
        assert(state & 1 == state % 2) by (bit_vector);
        if !node.is_write && node.state & STATE_COMPLETE_BIT != 0 {
            return Some(ReadGuard { _private: () });
        }
        None
    }

    /// The data that the guard gives access to.
    pub fn deref<'a, T, W>(&self, core: &'a Core<T, W>) -> (data: &'a T)
        ensures
            *data == core.data,
    {
        &core.data
    }

    /// Ends the guard and serves the front of the queue, where permits are to be had.
    pub fn drop<T, W>(self, core: &mut Core<T, W>) -> (served: Served<W>)
        ensures
            final(core)@ == old(core)@.queue_woken(false),
            served.woken@ == old(core)@.queue_wakes(false),
            served.write == old(core)@.queue_write(false),
    {
        core.wake_rw_queue(false)
    }
}

/// A writer of a core.
pub struct Writer;

impl Writer {
    /// Counts a version and completes those that waited for it.
    pub fn notify_all<T, W>(&self, core: &mut Core<T, W>) -> (notified: Notified<W>)
        requires
            old(core)@.wf(),
        ensures
            final(core)@.wf(),
            final(core)@ == old(core)@.notified(0),
            notified.changed@ == if old(core)@.wc.len() > 0 {
                seq![Node { state: 3u8, ..old(core)@.wc[0] }]
            } else {
                Seq::empty()
            },
            notified.changed_rest@ == if old(core)@.wc.len() > 0 {
                old(core)@.wc.skip(1)
            } else {
                Seq::empty()
            },
            notified.reads@ == if old(core)@.pending_wakeable(0) {
                old(core)@.pending_queued().woken_reads()
            } else {
                Seq::empty()
            },
    {
        core.notify_all(0)
    }

    /// Takes the write permit, if nobody holds a permit.
    pub fn try_write<T, W>(&self, core: &mut Core<T, W>) -> (guard: Option<WriteGuard>)
        ensures
            guard is Some <==> old(core).lock_state == WRITE_PERMIT_VALUE,
            final(core)@ == (PermitState {
                lock_state: if guard is Some {
                    0
                } else {
                    old(core).lock_state
                },
                ..old(core)@
            }),
    {
        if core.get_write_permit() {
            Some(WriteGuard { _private: () })
        } else {
            None
        }
    }
}

/// An observer of a core.
#[derive(Clone, Copy)]
pub struct Observer {
    /// The version that the observer has seen.
    pub version: usize,
}

impl Observer {
    /// Marks the current value as seen.
    pub fn mark_seen<T, W>(&mut self, core: &Core<T, W>)
        ensures
            final(self).version == core.version,
    {
        self.version = core.version;
    }

    /// Marks the current value as unseen.
    pub fn mark_unseen<T, W>(&mut self, core: &Core<T, W>)
        ensures
            final(self).version == crate::version::raw_previous(core.version),
    {
        self.version = core.version.wrapping_sub(VERSION_BUMP);
    }

    /// Whether the current value is marked as unseen.
    pub fn has_changed<T, W>(&self, core: &Core<T, W>) -> (changed: bool)
        ensures
            changed == (self.version != core.version),
    {
        self.version != core.version
    }

    /// Whether all writers are gone.
    pub fn is_closed<T, W>(&self, core: &Core<T, W>) -> (closed: bool)
        ensures
            closed == crate::version::raw_closed(core.version),
    {
        closed_bit_set(core.version)
    }
}

/// With all permits out for a write nobody else gets one, and a write is let in only while all
/// permits are in.
pub proof fn write_permit_is_exclusive<T, W>(core: PermitState<T, W>)
    requires
        core.lock_state == 0,
    ensures
        !core.head_wakeable(false),
        core.queue_woken(false) == core,
        !core.pending_wakeable(0),
        core.lock_state != WRITE_PERMIT_VALUE,
{
}

/// Waking a cluster of reads moves no more and no fewer permits than one for each read: what the
/// waker gave away comes back but for those.
pub proof fn each_woken_read_keeps_one_permit<T, W>(core: PermitState<T, W>, permits: usize)
    requires
        core.rw.len() > 0,
        !core.rw[0].is_write,
        core.read_cluster() <= core.lock_state + permits,
        core.lock_state + permits - core.read_cluster() <= usize::MAX,
    ensures
        1 <= core.woken_reads().len() <= MAX_WAKE_CLUSTERING,
        core.reads_woken(permits).lock_state + core.woken_reads().len() == core.lock_state
            + permits,
{
    lemma_leading_reads_bound(core.rw);
    lemma_permits_after(core.lock_state, permits as int, core.read_cluster() as int);
}

/// A write that ends while reads are first in the queue turns into their read permits: all others
/// are free again.
pub proof fn ended_write_becomes_reads<T, W>(core: PermitState<T, W>)
    requires
        core.lock_state == 0,
        core.has_head(),
        !core.rw[0].is_write,
    ensures
        core.queue_woken(true).lock_state == WRITE_PERMIT_VALUE - core.queue_wakes(true).len(),
        core.queue_wakes(true).len() >= 1,
{
    each_woken_read_keeps_one_permit(core, WRITE_PERMIT_VALUE);
}

/// The queue is served from the front and in order: those that are completed and those that still
/// wait are together those that waited, no read is completed past a write, and of those that are
/// completed the reads are woken and a write is not.
pub proof fn queue_is_served_in_order<T, W>(core: PermitState<T, W>, holds_write_permit: bool)
    ensures
        ({
            let served = core.queue_served(holds_write_permit);
            let rest = core.queue_woken(holds_write_permit).rw;
            &&& core.rw.len() == served.len() + rest.len()
            &&& forall|i: int|
                0 <= i < served.len() ==> (#[trigger] served[i]).waker == core.rw[i].waker
                    && served[i].is_write == core.rw[i].is_write && served[i].is_write
                    == core.rw[0].is_write
            &&& forall|i: int|
                0 <= i < rest.len() ==> #[trigger] rest[i] == core.rw[served.len() + i]
            &&& served.len() > 0 && core.rw[0].is_write ==> served.len() == 1
                && core.queue_write(holds_write_permit) == Some(served[0]) && core.queue_wakes(
                holds_write_permit,
            ).len() == 0
            &&& served.len() > 0 && !core.rw[0].is_write ==> core.queue_wakes(holds_write_permit)
                == served && core.queue_write(holds_write_permit) is None
        }),
{
    lemma_leading_reads_bound(core.rw);
    lemma_leading_reads_are_reads(core.rw);
}

proof fn lemma_leading_reads_are_reads<W>(queue: Seq<Node<W>>)
    ensures
        forall|i: int| 0 <= i < leading_reads(queue) ==> !(#[trigger] queue[i]).is_write,
    decreases queue.len(),
{
    lemma_leading_reads_bound(queue);
    if queue.len() > 0 && !queue[0].is_write {
        lemma_leading_reads_are_reads(queue.drop_first());
        assert forall|i: int| 0 <= i < leading_reads(queue) implies !(#[trigger] queue[i]).is_write by {
            if i > 0 {
                assert(queue.drop_first()[i - 1] == queue[i]);
            }
        }
    }
}

/// A notification loses no request: pending reads are woken or queued behind those that were
/// queued before them, and the version changes.
pub proof fn notification_reaches_everyone<T, W>(core: PermitState<T, W>, owned_permits: usize)
    requires
        core.wf(),
    ensures
        ({
            let after = core.notified(owned_permits);
            let woken = if core.pending_wakeable(owned_permits) {
                core.pending_queued().woken_reads()
            } else {
                Seq::empty()
            };
            &&& after.version != core.version
            &&& after.pr.len() == 0
            &&& after.wc.len() == 0
            &&& after.rw.len() + woken.len() == core.rw.len() + core.pr.len()
            &&& forall|i: int|
                0 <= i < after.rw.len() ==> #[trigger] after.rw[i] == (core.rw + core.pr)[i
                    + woken.len()]
        }),
{
    lemma_leading_reads_bound(core.rw + core.pr);
    crate::version::update_is_visible(crate::version::Version(core.version));
}

/// Permits that are taken for a read and given back leave the count as it was.
pub proof fn read_permits_are_given_back(count: usize, amount: usize)
    requires
        count > amount,
    ensures
        permits_after((count - amount) as usize, amount as int, 0) == count,
{
    lemma_permits_after((count - amount) as usize, amount as int, 0);
}

proof fn lemma_first_write_ends_the_reads<W>(queue: Seq<Node<W>>)
    ensures
        leading_reads(queue) < queue.len() ==> queue[leading_reads(queue) as int].is_write,
    decreases queue.len(),
{
    if queue.len() > 0 && !queue[0].is_write {
        let rest = queue.drop_first();
        lemma_first_write_ends_the_reads(rest);
        if leading_reads(queue) < queue.len() {
            assert(rest[leading_reads(rest) as int] == queue[leading_reads(queue) as int]);
        }
    }
}

/// A completed node is the node as it was but for its state: it is complete, and the eighth of a
/// cluster is also asked to wake the next.
pub proof fn completing_changes_only_the_state<W>(cluster: Seq<Node<W>>, i: int)
    requires
        0 <= i < cluster.len(),
    ensures
        completed(cluster).len() == cluster.len(),
        completed(cluster)[i].waker == cluster[i].waker,
        completed(cluster)[i].is_write == cluster[i].is_write,
        i == 7 ==> completed(cluster)[i].state == 3,
        i != 7 ==> completed(cluster)[i].state == 1,
        cluster_len(cluster.len()) <= cluster.len(),
        cluster.len() <= 8 ==> cluster_len(cluster.len()) == cluster.len(),
        cluster.len() >= 8 ==> cluster_len(cluster.len()) == 8,
{
}

/// A cluster of reads is made of the reads before the first write, up to eight of them: they are
/// completed in their order and leave the queue, each keeps one permit, and the front of the queue
/// stays in their hands exactly if there are eight. Nothing else changes.
pub proof fn a_cluster_is_made_of_the_first_reads<T, W>(core: PermitState<T, W>, permits: usize)
    requires
        core.rw.len() > 0,
        !core.rw[0].is_write,
    ensures
        ({
            let woken = core.woken_reads();
            let after = core.reads_woken(permits);
            let n = woken.len() as int;
            &&& 1 <= n <= 8
            &&& n <= core.rw.len()
            &&& n == 8 || n == core.rw.len() || core.rw[n].is_write
            &&& forall|i: int|
                0 <= i < n ==> (#[trigger] woken[i]).waker == core.rw[i].waker && !woken[i].is_write
                    && !core.rw[i].is_write && woken[i].state == if i == 7 {
                    3u8
                } else {
                    1u8
                }
            &&& after.rw == core.rw.subrange(n, core.rw.len() as int)
            &&& after.rw_head_taken == (n == 8)
            &&& after.lock_state as int == (core.lock_state + permits - n) % (usize::MAX + 1)
            &&& after.version == core.version
            &&& after.pr == core.pr
            &&& after.wc == core.wc
            &&& after.data == core.data
        }),
{
    lemma_leading_reads_bound(core.rw);
    lemma_leading_reads_are_reads(core.rw);
    lemma_first_write_ends_the_reads(core.rw);
    let n = core.woken_reads().len() as int;
    assert(n == core.read_cluster());
    assert(core.rw.skip(n) =~= core.rw.subrange(n, core.rw.len() as int));
    let total = core.lock_state + permits - n;
    vstd::arithmetic::div_mod::lemma_mod_bound(total, usize::MAX + 1);
    assert forall|i: int| 0 <= i < n implies (#[trigger] core.woken_reads()[i]).waker
        == core.rw[i].waker && !core.woken_reads()[i].is_write && !core.rw[i].is_write
        && core.woken_reads()[i].state == if i == 7 {
        3u8
    } else {
        1u8
    } by {
        assert(core.rw.take(n)[i] == core.rw[i]);
    }
}

/// The front of the queue is served exactly if nobody has it in hand and its permits are to be had:
/// all of them for a write and more than eight for reads, unless the caller holds them all.
pub proof fn who_is_served<T, W>(core: PermitState<T, W>, permits: usize)
    ensures
        core.has_head() <==> core.rw.len() > 0 && !core.rw_head_taken,
        core.head_wakeable(true) <==> core.rw.len() > 0 && !core.rw_head_taken,
        core.head_wakeable(false) <==> core.rw.len() > 0 && !core.rw_head_taken && (
        core.rw[0].is_write && core.lock_state == usize::MAX || !core.rw[0].is_write
            && core.lock_state > 8),
        core.pending_wakeable(permits) <==> core.pr.len() > 0 && core.rw.len() == 0
            && !core.rw_head_taken && (permits > 0 || core.lock_state > 8),
        core.permits_suffice(permits) <==> permits >= 8 || core.lock_state > usize::MAX / 2,
{
    let all = usize::MAX;
    assert(all >> 1 == all / 2) by (bit_vector);
    assert(usize::MAX == 0xffff_ffff || usize::MAX == 0xffff_ffff_ffff_ffff);
}

/// Where the front of the queue cannot be served, nothing changes and nobody is completed.
pub proof fn an_unserved_queue_stays<T, W>(core: PermitState<T, W>, holds_write_permit: bool)
    requires
        core.rw.len() == 0 || core.rw_head_taken || (!holds_write_permit && if core.rw[0].is_write {
            core.lock_state < usize::MAX
        } else {
            core.lock_state <= 8
        }),
    ensures
        core.queue_woken(holds_write_permit) == core,
        core.queue_wakes(holds_write_permit).len() == 0,
        core.queue_served(holds_write_permit).len() == 0,
        core.queue_write(holds_write_permit) is None,
{
}

/// A write at the front of the queue that gets all permits leaves the queue alone, completed and
/// not woken, and then no permit is to be had.
pub proof fn a_served_write_takes_all_permits<T, W>(core: PermitState<T, W>, held: bool)
    requires
        core.rw.len() > 0,
        !core.rw_head_taken,
        core.rw[0].is_write,
        if held {
            core.lock_state == 0
        } else {
            core.lock_state == usize::MAX
        },
    ensures
        core.queue_woken(held) == (PermitState {
            lock_state: 0,
            rw: core.rw.subrange(1, core.rw.len() as int),
            ..core
        }),
        core.queue_wakes(held).len() == 0,
        core.queue_write(held) == Some(Node { state: 1u8, ..core.rw[0] }),
{
    assert(core.rw.skip(1) =~= core.rw.subrange(1, core.rw.len() as int));
}

/// Reads at the front of the queue that are served are a cluster; each takes one permit, of those
/// of an ended write or of those that are free.
pub proof fn served_reads_take_one_permit_each<T, W>(core: PermitState<T, W>, held: bool)
    requires
        core.rw.len() > 0,
        !core.rw_head_taken,
        !core.rw[0].is_write,
        if held {
            core.lock_state == 0
        } else {
            core.lock_state > 8
        },
    ensures
        ({
            let after = core.queue_woken(held);
            let n = core.woken_reads().len() as int;
            &&& core.queue_wakes(held) == core.woken_reads()
            &&& core.queue_write(held) is None
            &&& after.lock_state == (if held {
                usize::MAX as int
            } else {
                core.lock_state as int
            }) - n
            &&& after.rw == core.rw.subrange(n, core.rw.len() as int)
            &&& after.rw_head_taken == (n == 8)
            &&& after.version == core.version
            &&& after.pr == core.pr
            &&& after.wc == core.wc
            &&& after.data == core.data
        }),
{
    let n = core.woken_reads().len() as int;
    assert(n == core.read_cluster()) by {
        lemma_leading_reads_bound(core.rw);
    }
    if held {
        a_cluster_is_made_of_the_first_reads(core, WRITE_PERMIT_VALUE);
        lemma_permits_after(core.lock_state, usize::MAX as int, n);
        assert(core.queue_woken(held) == core.reads_woken(WRITE_PERMIT_VALUE));
    } else {
        a_cluster_is_made_of_the_first_reads(core.cluster_taken(), MAX_WAKE_CLUSTERING);
        lemma_permits_after(core.cluster_taken().lock_state, 8, core.read_cluster() as int);
    }
}

/// A notification adds two to the version and takes everybody out who waited for it. Pending reads
/// are queued behind the queue; only where it is empty and permits are to be had the first eight of
/// them are completed, with one permit each.
pub proof fn a_notification_wakes_or_queues<T, W>(core: PermitState<T, W>, owned: usize)
    requires
        core.wf(),
    ensures
        ({
            let after = core.notified(owned);
            let n: int = if core.pr.len() < 8 {
                core.pr.len() as int
            } else {
                8
            };
            let woken = core.pending_queued().woken_reads();
            &&& after.version as int == (core.version + 2) % (usize::MAX + 1)
            &&& after.wc.len() == 0
            &&& after.pr.len() == 0
            &&& after.data == core.data
            &&& !core.pending_wakeable(owned) ==> after.rw == core.rw + core.pr && after.lock_state
                == core.lock_state && after.rw_head_taken == core.rw_head_taken
            &&& core.pending_wakeable(owned) ==> {
                &&& after.rw == core.pr.subrange(n, core.pr.len() as int)
                &&& after.rw_head_taken == (n == 8)
                &&& owned == 0 ==> after.lock_state == core.lock_state - n
                &&& owned > 0 ==> after.lock_state as int == (core.lock_state + owned - n) % (
                usize::MAX + 1)
                &&& woken.len() == n
                &&& forall|i: int|
                    0 <= i < n ==> (#[trigger] woken[i]).waker == core.pr[i].waker
                        && !woken[i].is_write && woken[i].state == if i == 7 {
                        3u8
                    } else {
                        1u8
                    }
            }
        }),
{
    crate::version::versions_count_in_twos(crate::version::Version(core.version));
    if core.pending_wakeable(owned) {
        let counted = PermitState {
            version: crate::version::raw_next(core.version),
            wc: Seq::empty(),
            ..core
        }.pending_queued();
        assert(counted.rw =~= core.pr);
        assert(core.pending_queued().rw =~= core.pr);
        lemma_only_reads_lead(core.pr);
        if owned > 0 {
            a_cluster_is_made_of_the_first_reads(counted, owned);
        } else {
            a_cluster_is_made_of_the_first_reads(counted.cluster_taken(), MAX_WAKE_CLUSTERING);
            lemma_permits_after(
                counted.cluster_taken().lock_state,
                8,
                counted.read_cluster() as int,
            );
        }
        a_cluster_is_made_of_the_first_reads(core.pending_queued(), owned);
    }
}

proof fn lemma_only_reads_lead<W>(queue: Seq<Node<W>>)
    requires
        forall|i: int| 0 <= i < queue.len() ==> !(#[trigger] queue[i]).is_write,
    ensures
        leading_reads(queue) == queue.len(),
{
    lemma_leading_reads_bound(queue);
    lemma_first_write_ends_the_reads(queue);
}

/// Permits come and go one for one, at the width of `usize`.
pub proof fn permits_are_counted(count: usize, added: usize, taken: usize)
    ensures
        permits_after(count, added as int, taken as int) as int == (count + added - taken) % (
        usize::MAX + 1),
        taken <= count + added <= usize::MAX ==> permits_after(count, added as int, taken as int)
            == count + added - taken,
{
    lemma_permits_after(count, added as int, taken as int);
    vstd::arithmetic::div_mod::lemma_mod_bound(count + added - taken, usize::MAX + 1);
}

/// Whether `woken` are the first reads of a queue, completed in their order: those before the first
/// write, up to eight.
pub open spec fn first_reads_completed<W>(queue: Seq<Node<W>>, woken: Seq<Node<W>>) -> bool {
    &&& 1 <= woken.len() && woken.len() <= 8 && woken.len() <= queue.len()
    &&& woken.len() == 8 || woken.len() == queue.len() || queue[woken.len() as int].is_write
    &&& forall|i: int|
        0 <= i < woken.len() ==> (#[trigger] woken[i]).waker == queue[i].waker && !queue[i].is_write
    &&& forall|i: int| 0 <= i < woken.len() && i != 7 ==> (#[trigger] woken[i]).state == 1
    &&& woken.len() == 8 ==> woken[7].state == 3
}

/// Whether `woken` are the first reads of a queue, completed, and have left it. The front of the
/// queue stays in their hands exactly if there are eight.
pub open spec fn cluster_has_left<T, W>(
    before: PermitState<T, W>,
    after: PermitState<T, W>,
    woken: Seq<Node<W>>,
) -> bool {
    &&& first_reads_completed(before.rw, woken)
    &&& after.rw == before.rw.subrange(woken.len() as int, before.rw.len() as int)
    &&& after.rw_head_taken == (woken.len() == 8)
    &&& after.version == before.version
    &&& after.pr == before.pr
    &&& after.wc == before.wc
    &&& after.data == before.data
}

/// Whether the front of a queue has been served, given whether the permits of an ended write are
/// given away: not at all where nobody is queued, the front is in hand or permits are missing; one
/// write, which takes all permits and is not woken; or a cluster of reads, with one permit each.
pub open spec fn front_is_served<T, W>(
    before: PermitState<T, W>,
    after: PermitState<T, W>,
    woken: Seq<Node<W>>,
    write: Option<Node<W>>,
    held: bool,
) -> bool {
    if before.rw.len() == 0 || before.rw_head_taken || (!held && if before.rw[0].is_write {
        before.lock_state < usize::MAX
    } else {
        before.lock_state <= 8
    }) {
        after == before && woken.len() == 0 && write is None
    } else if before.rw[0].is_write {
        &&& woken.len() == 0
        &&& write == Some(Node { state: 1u8, ..before.rw[0] })
        &&& after == (PermitState {
            lock_state: if held {
                before.lock_state
            } else {
                0
            },
            rw: before.rw.subrange(1, before.rw.len() as int),
            ..before
        })
    } else {
        &&& write is None
        &&& cluster_has_left(before, after, woken)
        &&& held ==> after.lock_state as int == (before.lock_state + usize::MAX - woken.len()) % (
        usize::MAX + 1)
        &&& !held ==> after.lock_state == before.lock_state - woken.len()
    }
}

proof fn lemma_cluster_has_left<T, W>(core: PermitState<T, W>, permits: usize)
    requires
        core.rw.len() > 0,
        !core.rw[0].is_write,
    ensures
        cluster_has_left(core, core.reads_woken(permits), core.woken_reads()),
{
    lemma_leading_reads_bound(core.rw);
    lemma_leading_reads_are_reads(core.rw);
    lemma_first_write_ends_the_reads(core.rw);
    let woken = core.woken_reads();
    let n = woken.len() as int;
    assert(n == core.read_cluster());
    assert(core.rw.skip(n) =~= core.rw.subrange(n, core.rw.len() as int));
}

proof fn lemma_front_is_served<T, W>(core: PermitState<T, W>, held: bool)
    ensures
        front_is_served(
            core,
            core.queue_woken(held),
            core.queue_wakes(held),
            core.queue_write(held),
            held,
        ),
{
    if core.rw.len() == 0 || core.rw_head_taken {
    } else if core.rw[0].is_write {
        assert(core.rw.skip(1) =~= core.rw.subrange(1, core.rw.len() as int));
    } else if held {
        lemma_cluster_has_left(core, WRITE_PERMIT_VALUE);
        a_cluster_is_made_of_the_first_reads(core, WRITE_PERMIT_VALUE);
    } else if core.lock_state > 8 {
        let taken = core.cluster_taken();
        lemma_cluster_has_left(taken, MAX_WAKE_CLUSTERING);
        served_reads_take_one_permit_each(core, held);
        assert(core.queue_woken(held) == taken.reads_woken(MAX_WAKE_CLUSTERING));
        assert(core.queue_wakes(held) == taken.woken_reads());
    }
}

/// A guard that goes serves the front of the queue: that of a write gives its permits away, and that
/// of a read does so where permits are to be had.
pub proof fn guards_serve_the_front<T, W>(read: ReadGuard, write: WriteGuard, served: Served<W>)
    ensures
        forall|core: &mut Core<T, W>|
            #[trigger] call_ensures(WriteGuard::drop::<T, W>, (write, core), served)
                ==> front_is_served(
                (*core)@,
                (*final(core))@,
                served.woken@,
                served.write,
                true,
            ),
        forall|core: &mut Core<T, W>|
            #[trigger] call_ensures(ReadGuard::drop::<T, W>, (read, core), served)
                ==> front_is_served(
                (*core)@,
                (*final(core))@,
                served.woken@,
                served.write,
                false,
            ),
{
    assert forall|state: PermitState<T, W>, held: bool| front_is_served(
        state,
        #[trigger] state.queue_woken(held),
        state.queue_wakes(held),
        state.queue_write(held),
        held,
    ) by {
        lemma_front_is_served(state, held);
    }
}

/// A notification hands out the first future that waited for a change, asked to wake those behind
/// it, which are handed out with it in their order; it adds two to the version.
pub proof fn notifications_reach_the_waiting<T, W>(writer: &Writer, notified: Notified<W>)
    ensures
        forall|core: &mut Core<T, W>|
            #[trigger] call_ensures(Writer::notify_all::<T, W>, (writer, core), notified) ==> {
                let waiting = (*core)@.wc;
                &&& notified.changed@.len() + notified.changed_rest@.len() == waiting.len()
                &&& waiting.len() > 0 ==> notified.changed@.len() == 1
                    && notified.changed@[0].waker == waiting[0].waker && notified.changed@[0].state
                    == 3
                &&& forall|i: int|
                    0 < i < waiting.len() ==> notified.changed_rest@[i - 1]
                        == #[trigger] waiting[i]
                &&& (*final(core))@.wc.len() == 0
                &&& (*final(core))@.version as int == ((*core)@.version + 2) % (usize::MAX + 1)
            },
{
    assert forall|raw: usize| (#[trigger] crate::version::raw_next(raw)) as int == (raw + 2) % (
    usize::MAX + 1) by {
        crate::version::versions_count_in_twos(crate::version::Version(raw));
    }
}

} // verus!
