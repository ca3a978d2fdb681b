//! Callback managers, and locks around data that carries one.

use vstd::prelude::*;

use std::marker::PhantomData;
use std::ops::{Deref, DerefMut};

use crate::lock::{DataReadLock, DataWriteLock, ReadGuardSpecifier};

pub mod standard;

verus! {

/// A callback manager.
pub trait CallbackManager<T, F: FnMut(&T) -> bool, W: Clone>: Sized {
    /// The callbacks that are registered, in the order in which they are called.
    spec fn callbacks(&self) -> Seq<F>;

    /// The wakers that the next execution wakes.
    spec fn wakers(&self) -> Seq<W>;

    /// Whether `after` is this manager with the function `f` registered.
    spec fn registered(&self, f: F, after: &Self) -> bool;

    /// Whether `after` is this manager with the waker `w` registered.
    spec fn waker_registered(&self, w: &W, after: &Self) -> bool;

    /// Whether everything that is registered can be executed with `value`.
    spec fn executable(&self, value: &T) -> bool;

    /// Whether `after` is what an execution with `value` can leave.
    spec fn executed(&self, value: &T, after: &Self) -> bool;

    /// A function that is registered comes behind those that were registered before. They all stay
    /// where they are, and so do the wakers.
    proof fn registration_keeps_the_others(&self, f: F, after: &Self)
        requires
            self.registered(f, after),
        ensures
            after.callbacks().len() == self.callbacks().len() + 1,
            forall|i: int|
                0 <= i < self.callbacks().len() ==> #[trigger] after.callbacks()[i]
                    == self.callbacks()[i],
            after.callbacks()[self.callbacks().len() as int] == f,
            after.wakers() == self.wakers(),
    ;

    /// A waker that is registered comes behind those that were registered before, or becomes the
    /// last callback. All callbacks and wakers stay where they are.
    proof fn waker_registration_keeps_the_others(&self, w: &W, after: &Self)
        requires
            self.waker_registered(w, after),
        ensures
            after.callbacks().len() + after.wakers().len() == self.callbacks().len()
                + self.wakers().len() + 1,
            after.callbacks().len() >= self.callbacks().len(),
            after.wakers().len() >= self.wakers().len(),
            forall|i: int|
                0 <= i < self.callbacks().len() ==> #[trigger] after.callbacks()[i]
                    == self.callbacks()[i],
            forall|i: int|
                0 <= i < self.wakers().len() ==> #[trigger] after.wakers()[i] == self.wakers()[i],
            after.wakers().len() > self.wakers().len() ==> cloned(
                *w,
                after.wakers()[self.wakers().len() as int],
            ),
    ;

    /// An execution needs of the callbacks only that each of them can be called.
    proof fn callable_is_executable(&self, value: &T)
        requires
            forall|i: int|
                0 <= i < self.callbacks().len() ==> call_requires(
                    #[trigger] self.callbacks()[i],
                    (value,),
                ),
        ensures
            self.executable(value),
    ;

    /// An execution calls every callback, each when its turn comes and only then, keeps those that
    /// return true, and leaves no waker.
    proof fn execution_calls_everyone(&self, value: &T, after: &Self) -> (verdicts: Seq<bool>)
        requires
            self.executed(value, after),
        ensures
            verdicts.len() == self.callbacks().len(),
            forall|i: int|
                0 <= i < verdicts.len() ==> call_ensures(
                    self.callbacks()[i],
                    (value,),
                    #[trigger] verdicts[i],
                ),
            crate::callback::retained(self.callbacks(), verdicts, after.callbacks()),
            crate::callback::called_in_turn(self.callbacks(), verdicts),
            after.wakers().len() == 0,
    ;

    /// Register a function on the callback manager's execution queue.
    fn register(&mut self, f: F)
        ensures
            old(self).registered(f, final(self)),
            final(self).callbacks() == old(self).callbacks().push(f),
            final(self).wakers() == old(self).wakers(),
    ;

    /// Register a waker on the callback manager. A manager that has no other place for it can
    /// register it as a [`Oneshot`] function.
    fn register_waker(&mut self, w: &W)
        ensures
            old(self).waker_registered(w, final(self)),
            final(self).callbacks().len() + final(self).wakers().len() == old(
                self,
            ).callbacks().len() + old(self).wakers().len() + 1,
    ;

    /// Execute all callbacks registered on the manager and drop all callbacks that return
    /// `false`. Before that `wake` is handed all wakers, in the order in which they are to be
    /// woken, and gives the value that the callbacks are called with.
    fn callback<'v, K: FnOnce(Vec<W>) -> &'v T>(&mut self, wake: K) where T: 'v
        requires
            forall|all: Vec<W>|
                all@ == old(self).wakers() ==> #[trigger] call_requires(wake, (all,)),
            forall|all: Vec<W>, value: &'v T|
                all@ == old(self).wakers() && #[trigger] call_ensures(wake, (all,), value)
                    ==> old(self).executable(value),
        ensures
            exists|all: Vec<W>, value: &'v T|
                all@ == old(self).wakers() && #[trigger] call_ensures(wake, (all,), value)
                    && old(self).executed(value, final(self)),
            final(self).wakers().len() == 0,
    ;
}

/// However many functions are registered on a manager, one after the other and with nothing
/// executed meanwhile, the next execution calls each of them, and those that were held before as
/// well.
pub proof fn everything_registered_is_called<
    T,
    F: FnMut(&T) -> bool,
    W: Clone,
    M: CallbackManager<T, F, W>,
>(
    managers: Seq<M>,
    functions: Seq<F>,
    value: &T,
    after: &M,
) -> (verdicts: Seq<bool>)
    requires
        managers.len() == functions.len() + 1,
        forall|k: int|
            0 <= k < functions.len() ==> (#[trigger] managers[k]).registered(
                functions[k],
                &managers[k + 1],
            ),
        managers[functions.len() as int].executed(value, after),
    ensures
        ({
            let held = managers[0].callbacks().len();
            &&& verdicts.len() == held + functions.len()
            &&& forall|i: int|
                0 <= i < held ==> call_ensures(
                    managers[0].callbacks()[i],
                    (value,),
                    #[trigger] verdicts[i],
                )
            &&& forall|i: int|
                0 <= i < functions.len() ==> call_ensures(
                    #[trigger] functions[i],
                    (value,),
                    verdicts[held + i],
                )
        }),
{
    lemma_registrations_add_up::<T, F, W, M>(managers, functions, functions.len());
    let last = managers[functions.len() as int];
    let verdicts = last.execution_calls_everyone(value, after);
    let held = managers[0].callbacks().len();
    assert forall|i: int| 0 <= i < held implies call_ensures(
        managers[0].callbacks()[i],
        (value,),
        #[trigger] verdicts[i],
    ) by {
        assert(last.callbacks()[i] == managers[0].callbacks()[i]);
    }
    assert forall|i: int| 0 <= i < functions.len() implies call_ensures(
        #[trigger] functions[i],
        (value,),
        verdicts[held + i],
    ) by {
        assert(last.callbacks()[held + i] == functions[i]);
    }
    verdicts
}

proof fn lemma_registrations_add_up<
    T,
    F: FnMut(&T) -> bool,
    W: Clone,
    M: CallbackManager<T, F, W>,
>(
    managers: Seq<M>,
    functions: Seq<F>,
    count: nat,
)
    requires
        managers.len() == functions.len() + 1,
        count <= functions.len(),
        forall|k: int|
            0 <= k < functions.len() ==> (#[trigger] managers[k]).registered(
                functions[k],
                &managers[k + 1],
            ),
    ensures
        managers[count as int].callbacks() == managers[0].callbacks() + functions.take(
            count as int,
        ),
    decreases count,
{
    if count == 0 {
        assert(managers[0].callbacks() =~= managers[0].callbacks() + functions.take(0));
    } else {
        lemma_registrations_add_up::<T, F, W, M>(managers, functions, (count - 1) as nat);
        let before = managers[count - 1];
        before.registration_keeps_the_others(functions[count - 1], &managers[count as int]);
        assert(managers[count as int].callbacks() =~= managers[0].callbacks() + functions.take(
            count as int,
        ));
    }
}

/// A waker in the form of a function that wakes it once.
pub struct Oneshot<W> {
    /// The waker, until it is woken.
    pub waker: Option<W>,
}

impl<W> Oneshot<W> {
    /// A function that wakes a clone of `w`.
    pub fn new(w: &W) -> (oneshot: Self) where W: Clone
        ensures
            oneshot.waker matches Some(waker) && cloned(*w, waker),
    {
        Oneshot { waker: Some(w.clone()) }
    }

    /// Wakes the waker, unless that was done before. Never asks to be called again.
    pub fn call<K: FnMut(W)>(&mut self, wake: &mut K) -> (again: bool)
        requires
            old(self).waker matches Some(waker) ==> call_requires(*old(wake), (waker,)),
        ensures
            !again,
            final(self).waker is None,
            old(self).waker matches Some(waker) ==> call_ensures(*old(wake), (waker,), ()),
            *final(wake) == *old(wake),
    {
        if let Some(waker) = self.waker.take() {
            wake(waker);
        }
        false
    }
}

/// Data together with the callback manager that is told of its updates.
pub struct ExecData<T, E> {
    /// The callback manager.
    pub exec_manager: E,
    /// The data.
    pub data: T,
}

impl<T, E> ExecData<T, E> {
    /// The data.
    pub fn deref_mut(&mut self) -> (data: &mut T)
        ensures
            *data == old(self).data,
            final(self).data == *final(data),
            final(self).exec_manager == old(self).exec_manager,
    {
        &mut self.data
    }
}

impl<T, E> Deref for ExecData<T, E> {
    type Target = T;

    fn deref(&self) -> (data: &T)
        ensures
            *data == self.data,
    {
        &self.data
    }
}

/// A lock around data that carries a callback manager.
pub struct ExecLock<L> {
    /// The lock.
    pub inner: L,
}

impl<L> ExecLock<L> {
    /// A lock that gives access to the data that `lock` protects.
    pub fn new(lock: L) -> (exec: Self)
        ensures
            exec.inner == lock,
    {
        ExecLock { inner: lock }
    }

    /// The inner lock.
    pub fn deref_mut(&mut self) -> (lock: &mut L)
        ensures
            *lock == old(self).inner,
            final(self).inner == *final(lock),
    {
        &mut self.inner
    }
}

impl<L> Deref for ExecLock<L> {
    type Target = L;

    fn deref(&self) -> (lock: &L)
        ensures
            *lock == self.inner,
    {
        &self.inner
    }
}

impl<'read, T, E, L: ReadGuardSpecifier<'read, Target = ExecData<T, E>>> ReadGuardSpecifier<
    'read,
> for ExecLock<L> {
    type Target = T;

    type ReadGuard = ExecGuard<L::ReadGuard, T, E>;
}

/// Shared access to data that carries a callback manager.
#[verifier::reject_recursive_types(T)]
#[verifier::reject_recursive_types(E)]
pub struct ExecGuard<G, T, E> {
    /// Shared access to the data with its manager.
    pub inner: G,
    /// What is accessed.
    pub types: PhantomData<(T, E)>,
}

impl<T, E, G: Deref<Target = ExecData<T, E>>> ExecGuard<G, T, E> {
    /// Access to the data that `guard` gives access to.
    pub fn new(guard: G) -> (exec: Self)
        ensures
            exec.inner == guard,
    {
        ExecGuard { inner: guard, types: PhantomData }
    }
}

impl<T, E, G: Deref<Target = ExecData<T, E>>> Deref for ExecGuard<G, T, E> {
    type Target = T;

    fn deref(&self) -> (data: &T)
        ensures
            exists|inner: &ExecData<T, E>| #[trigger]
                call_ensures(G::deref, (&self.inner,), inner) && *data == inner.data,
    {
        let inner: &ExecData<T, E> = self.inner.deref();
        assert(call_ensures(G::deref, (&self.inner,), inner));
        &inner.data
    }
}

impl<'read, T, E, L: DataReadLock<'read, Target = ExecData<T, E>>> DataReadLock<
    'read,
> for ExecLock<L> {
    fn read(&'read self) -> (guard: ExecGuard<L::ReadGuard, T, E>)
        ensures
            call_ensures(L::read, (&self.inner,), guard.inner),
    {
        ExecGuard::new(self.inner.read())
    }

    fn try_read(&'read self) -> (guard: Option<ExecGuard<L::ReadGuard, T, E>>)
        ensures
            exists|inner: Option<L::ReadGuard>| #[trigger]
                call_ensures(L::try_read, (&self.inner,), inner) && match inner {
                    Some(inner) => guard matches Some(exec) && exec.inner == inner,
                    None => guard is None,
                },
    {
        let inner = self.inner.try_read();
        assert(call_ensures(L::try_read, (&self.inner,), inner));
        match inner {
            Some(inner) => Some(ExecGuard::new(inner)),
            None => None,
        }
    }
}

/// Exclusive access to data that carries a callback manager.
#[verifier::reject_recursive_types(T)]
#[verifier::reject_recursive_types(E)]
pub struct ExecGuardMut<G, T, E> {
    /// Exclusive access to the data with its manager.
    pub inner: G,
    /// What is accessed.
    pub types: PhantomData<(T, E)>,
}

impl<T, E, G: Deref<Target = ExecData<T, E>>> ExecGuardMut<G, T, E> {
    /// Access to the data that `guard` gives access to.
    pub fn new(guard: G) -> (exec: Self)
        ensures
            exec.inner == guard,
    {
        ExecGuardMut { inner: guard, types: PhantomData }
    }
}

impl<T, E, G: Deref<Target = ExecData<T, E>>> Deref for ExecGuardMut<G, T, E> {
    type Target = T;

    fn deref(&self) -> (data: &T)
        ensures
            exists|inner: &ExecData<T, E>| #[trigger]
                call_ensures(G::deref, (&self.inner,), inner) && *data == inner.data,
    {
        let inner: &ExecData<T, E> = self.inner.deref();
        assert(call_ensures(G::deref, (&self.inner,), inner));
        &inner.data
    }
}

impl<T, E, G: DerefMut<Target = ExecData<T, E>>> ExecGuardMut<G, T, E> {
    /// The data.
    pub fn deref_mut(&mut self) -> (data: &mut T)
        ensures
            exists|guard: &mut G, inner: &mut ExecData<T, E>| #[trigger]
                call_ensures(G::deref_mut, (guard,), inner) && *guard == old(self).inner
                    && *final(guard) == final(self).inner && *data == inner.data && *final(data)
                    == final(inner).data && final(inner).exec_manager == inner.exec_manager,
    {
        let guard: &mut G = &mut self.inner;
        let inner: &mut ExecData<T, E> = guard.deref_mut();
        &mut inner.data
    }
}

impl<'write, T, E, L: DataWriteLock<'write, Target = ExecData<T, E>>> DataWriteLock<
    'write,
> for ExecLock<L> {
    type WriteGuard = ExecGuardMut<L::WriteGuard, T, E>;

    type DowngradedGuard = ExecGuard<L::DowngradedGuard, T, E>;

    fn write(&'write self) -> (guard: ExecGuardMut<L::WriteGuard, T, E>)
        ensures
            call_ensures(L::write, (&self.inner,), guard.inner),
    {
        ExecGuardMut::new(self.inner.write())
    }

    fn try_write(&'write self) -> (guard: Option<ExecGuardMut<L::WriteGuard, T, E>>)
        ensures
            exists|inner: Option<L::WriteGuard>| #[trigger]
                call_ensures(L::try_write, (&self.inner,), inner) && match inner {
                    Some(inner) => guard matches Some(exec) && exec.inner == inner,
                    None => guard is None,
                },
    {
        let inner = self.inner.try_write();
        assert(call_ensures(L::try_write, (&self.inner,), inner));
        match inner {
            Some(inner) => Some(ExecGuardMut::new(inner)),
            None => None,
        }
    }

    fn atomic_downgrade(write_guard: ExecGuardMut<L::WriteGuard, T, E>) -> (guard: ExecGuard<
        L::DowngradedGuard,
        T,
        E,
    >)
        ensures
            call_ensures(L::atomic_downgrade, (write_guard.inner,), guard.inner),
    {
        ExecGuard::new(L::atomic_downgrade(write_guard.inner))
    }
}

/// On every manager a function that is registered comes behind the others, which all stay where they
/// are, and a waker that is registered adds one to what is registered.
pub proof fn registrations_add_one<T, F: FnMut(&T) -> bool, W: Clone, M: CallbackManager<T, F, W>>(
    f: F,
    w: &W,
)
    ensures
        forall|manager: &mut M|
            #[trigger] call_ensures(M::register, (manager, f), ()) ==> {
                let before = (*manager).callbacks();
                let after = (*final(manager)).callbacks();
                &&& after.len() == before.len() + 1
                &&& forall|i: int| 0 <= i < before.len() ==> #[trigger] after[i] == before[i]
                &&& after[before.len() as int] == f
                &&& (*final(manager)).wakers() == (*manager).wakers()
            },
        forall|manager: &mut M|
            #[trigger] call_ensures(M::register_waker, (manager, w), ()) ==> {
                let before = *manager;
                let after = *final(manager);
                &&& after.callbacks().len() + after.wakers().len() == before.callbacks().len()
                    + before.wakers().len() + 1
                &&& forall|i: int|
                    0 <= i < before.callbacks().len() ==> #[trigger] after.callbacks()[i]
                        == before.callbacks()[i]
                &&& forall|i: int|
                    0 <= i < before.wakers().len() ==> #[trigger] after.wakers()[i]
                        == before.wakers()[i]
            },
{
    assert forall|manager: &mut M|
        #[trigger] call_ensures(M::register_waker, (manager, w), ()) implies {
        let before = *manager;
        let after = *final(manager);
        &&& after.callbacks().len() + after.wakers().len() == before.callbacks().len()
            + before.wakers().len() + 1
        &&& forall|i: int|
            0 <= i < before.callbacks().len() ==> #[trigger] after.callbacks()[i]
                == before.callbacks()[i]
        &&& forall|i: int|
            0 <= i < before.wakers().len() ==> #[trigger] after.wakers()[i] == before.wakers()[i]
    } by {
        (*manager).waker_registration_keeps_the_others(w, &*final(manager));
    }
}

} // verus!
