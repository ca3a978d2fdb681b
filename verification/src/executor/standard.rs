//! The standard executor.

use vstd::prelude::*;

use std::marker::PhantomData;
use std::ops::Deref;

use crate::callback::execute_callbacks;
use crate::callback::vec_box::Function;
use crate::executor::ExecRegister;

verus! {

/// A waker in a list.
struct WakerNode<W> {
    waker: W,
    next: Option<Box<WakerNode<W>>>,
}

/// The wakers from a node on.
spec fn wakers_from<W>(node: Option<Box<WakerNode<W>>>) -> Seq<W>
    decreases node,
{
    match node {
        Some(node) => seq![node.waker] + wakers_from(node.next),
        None => Seq::empty(),
    }
}

/// A linked list of wakers, the latest first.
pub struct WakerList<W> {
    head: Option<Box<WakerNode<W>>>,
}

impl<W> View for WakerList<W> {
    type V = Seq<W>;

    closed spec fn view(&self) -> Seq<W> {
        wakers_from(self.head)
    }
}

impl<W> WakerList<W> {
    /// A list without wakers.
    pub fn new() -> (list: Self)
        ensures
            list@ == Seq::<W>::empty(),
    {
        WakerList { head: None }
    }

    /// Puts a waker first.
    pub fn add_waker(&mut self, w: W)
        ensures
            final(self)@ == seq![w] + old(self)@,
    {
        let mut prev_head: Option<Box<WakerNode<W>>> = None;
        std::mem::swap(&mut prev_head, &mut self.head);
        self.head = Some(Box::new(WakerNode { waker: w, next: prev_head }));
    }

    /// Takes all wakers out, to be gone through.
    pub fn drain(&mut self) -> (drained: WakerListDrain<W>)
        ensures
            drained@ == old(self)@,
            final(self)@ == Seq::<W>::empty(),
    {
        let mut curr: Option<Box<WakerNode<W>>> = None;
        std::mem::swap(&mut curr, &mut self.head);
        WakerListDrain { curr }
    }
}

/// Wakers that were taken out of a list, the latest first.
pub struct WakerListDrain<W> {
    curr: Option<Box<WakerNode<W>>>,
}

impl<W> View for WakerListDrain<W> {
    type V = Seq<W>;

    closed spec fn view(&self) -> Seq<W> {
        wakers_from(self.curr)
    }
}

impl<W> WakerListDrain<W> {
    /// The next waker.
    pub fn next(&mut self) -> (waker: Option<W>)
        ensures
            old(self)@.len() == 0 ==> waker is None && final(self)@ == old(self)@,
            old(self)@.len() > 0 ==> waker == Some(old(self)@[0]) && final(self)@
                == old(self)@.subrange(1, old(self)@.len() as int),
    {
        match self.curr.take() {
            None => None,
            Some(curr_box) => {
                let node = *curr_box;
                self.curr = node.next;
                assert(wakers_from(self.curr) =~= old(self)@.subrange(1, old(self)@.len() as int));
                Some(node.waker)
            },
        }
    }

    /// All wakers that are left, in order.
    pub fn collect(self) -> (wakers: Vec<W>)
        ensures
            wakers@ == self@,
    {
        let ghost all = self@;
        let mut wakers: Vec<W> = Vec::new();
        let mut rest = self;
        loop
            invariant
                wakers@ + rest@ == all,
            ensures
                wakers@ == all,
            decreases rest@.len(),
        {
            let ghost before = wakers@;
            let ghost left = rest@;
            match rest.next() {
                None => {
                    assert(wakers@ =~= all);
                    break;
                },
                Some(waker) => {
                    wakers.push(waker);
                    assert(wakers@ + rest@ =~= before + left);
                },
            }
        }
        wakers
    }
}

/// Callbacks and wakers on their way in and out of an executor.
pub struct Data<F, W> {
    /// Callbacks that have been registered since the last execution.
    pub callbacks_in: Vec<F>,
    /// Callbacks that are executed.
    pub callbacks_out: Vec<F>,
    /// Wakers that have been registered since the last execution.
    pub wakers_in: Vec<W>,
    /// Wakers that are woken.
    pub wakers_out: Vec<W>,
}

impl<F, W> Data<F, W> {
    /// No callbacks and no wakers.
    pub fn new() -> (data: Self)
        ensures
            data.callbacks_in@ == Seq::<F>::empty(),
            data.callbacks_out@ == Seq::<F>::empty(),
            data.wakers_in@ == Seq::<W>::empty(),
            data.wakers_out@ == Seq::<W>::empty(),
    {
        Data {
            callbacks_in: Vec::new(),
            callbacks_out: Vec::new(),
            wakers_in: Vec::new(),
            wakers_out: Vec::new(),
        }
    }
}

/// What is registered on an executor.
#[verifier::ext_equal]
pub struct Registered<F, W> {
    /// The functions, first registered first.
    pub callbacks: Seq<F>,
    /// The wakers, last registered first.
    pub wakers: Seq<W>,
}

/// Standard executor that supports registration of functions and wakers.
#[verifier::reject_recursive_types(T)]
pub struct StdExec<T, F, W> {
    callbacks: Vec<F>,
    wakers: WakerList<W>,
    _types: PhantomData<T>,
}

impl<T, F, W> View for StdExec<T, F, W> {
    type V = Registered<F, W>;

    closed spec fn view(&self) -> Registered<F, W> {
        Registered { callbacks: self.callbacks@, wakers: self.wakers@ }
    }
}

impl<T, F, W> StdExec<T, F, W> {
    /// Create a new executor.
    pub fn new() -> (exec: Self)
        ensures
            exec@.callbacks == Seq::<F>::empty(),
            exec@.wakers == Seq::<W>::empty(),
    {
        StdExec { callbacks: Vec::new(), wakers: WakerList::new(), _types: PhantomData }
    }
}

impl<T, F: FnMut(&T) -> bool, W> StdExec<T, F, W> {
    /// Commits an update and executes everything that is registered: calls each function with the
    /// value that the guard of the commit gives access to, of which those leave that return
    /// false; gives the guard back; then hands out all wakers, the latest first, to be woken.
    pub fn execute<G: Deref<Target = T>, C: FnOnce() -> G>(&mut self, commit: C) -> (woken: Vec<W>)
        requires
            call_requires(commit, ()),
            forall|guard: G, value: &T|
                call_ensures(commit, (), guard) && #[trigger] call_ensures(
                    G::deref,
                    (&guard,),
                    value,
                ) ==> crate::callback::callable(old(self)@.callbacks, value),
        ensures
            exists|guard: G, value: &T, verdicts: Seq<bool>|
                #![trigger call_ensures(G::deref, (&guard,), value), crate::callback::called(old(self)@.callbacks, value, verdicts)]
                call_ensures(commit, (), guard) && call_ensures(G::deref, (&guard,), value)
                    && crate::callback::called(old(self)@.callbacks, value, verdicts)
                    && crate::callback::retained(
                    old(self)@.callbacks,
                    verdicts,
                    final(self)@.callbacks,
                ) && crate::callback::called_in_turn(old(self)@.callbacks, verdicts),
            woken@ == old(self)@.wakers,
            final(self)@.wakers == Seq::<W>::empty(),
    {
        {
            let guard = commit();
            assert(call_ensures(commit, (), guard));
            let value: &T = guard.deref();
            assert(call_ensures(G::deref, (&guard,), value));
            execute_callbacks(&mut self.callbacks, value);
        }
        self.wakers.drain().collect()
    }
}

impl<T, F, W> ExecRegister<Function<F>> for StdExec<T, F, W> {
    open spec fn registered(&self, x: Function<F>, after: &Self) -> bool {
        &&& after@.callbacks == self@.callbacks.push(x.0)
        &&& after@.wakers == self@.wakers
    }

    /// Puts the function that `condition` gave behind the others.
    fn register<C: FnOnce() -> Option<Function<F>>>(&mut self, condition: C) -> (given: bool) {
        match condition() {
            Some(f) => {
                self.callbacks.push(f.0);
                true
            },
            None => false,
        }
    }
}

impl<'a, T, F, W: Clone> ExecRegister<&'a W> for StdExec<T, F, W> {
    open spec fn registered(&self, x: &'a W, after: &Self) -> bool {
        &&& after@.callbacks == self@.callbacks
        &&& exists|waker: W| #[trigger]
            cloned(*x, waker) && after@.wakers == seq![waker] + self@.wakers
    }

    /// Puts a clone of the waker that `condition` gave in the list.
    fn register<C: FnOnce() -> Option<&'a W>>(&mut self, condition: C) -> (given: bool) {
        match condition() {
            Some(w) => {
                let waker = w.clone();
                assert(cloned(*w, waker));
                self.wakers.add_waker(waker);
                true
            },
            None => false,
        }
    }
}

/// A function that is registered comes last and a waker comes first; everything else stays in its
/// order.
pub proof fn registrations_keep_the_others<T, F, W: Clone>(
    before: StdExec<T, F, W>,
    f: F,
    w: W,
    after: StdExec<T, F, W>,
)
    ensures
        ExecRegister::<Function<F>>::registered(&before, Function(f), &after) ==> {
            &&& after@.callbacks.len() == before@.callbacks.len() + 1
            &&& after@.callbacks.last() == f
            &&& after@.callbacks.drop_last() == before@.callbacks
            &&& after@.wakers == before@.wakers
        },
        ExecRegister::<&W>::registered(&before, &w, &after) ==> {
            &&& after@.wakers.len() == before@.wakers.len() + 1
            &&& cloned(w, after@.wakers[0])
            &&& after@.wakers.drop_first() == before@.wakers
            &&& after@.callbacks == before@.callbacks
        },
{
    if ExecRegister::<Function<F>>::registered(&before, Function(f), &after) {
        assert(after@.callbacks.drop_last() =~= before@.callbacks);
    }
    if ExecRegister::<&W>::registered(&before, &w, &after) {
        assert(after@.wakers.drop_first() =~= before@.wakers);
    }
}

} // verus!
