//! Callbacks and wakers that are executed on updates of a sensor.

use vstd::prelude::*;

use std::marker::PhantomData;

pub mod calls;
pub mod vec_box;

use calls::Calls;

verus! {

/// Whether `at` tells which of the callbacks stay after an execution, and where each came from,
/// given what each returned.
///
/// Those that returned true stay, once each. A callback stays at its position, except that the
/// positions of callbacks that left are filled, first position first, with the last callbacks,
/// last callback first.
pub open spec fn sources(verdicts: Seq<bool>, at: Seq<int>) -> bool {
    &&& at.len() <= verdicts.len()
    &&& at.no_duplicates()
    &&& forall|i: int| 0 <= i < at.len() ==> 0 <= #[trigger] at[i] < verdicts.len()
        && verdicts[at[i]]
    &&& forall|p: int| 0 <= p < verdicts.len() && verdicts[p] ==> #[trigger] at.contains(p)
    &&& forall|i: int| 0 <= i < at.len() && verdicts[i] ==> #[trigger] at[i] == i
    &&& forall|i: int, j: int|
        0 <= i < j < at.len() && !verdicts[i] && !verdicts[j] ==> #[trigger] at[i]
            > #[trigger] at[j]
}

/// Whether `after` is what stays of the callbacks `before`, given what each returned.
pub open spec fn retained<F>(before: Seq<F>, verdicts: Seq<bool>, after: Seq<F>) -> bool {
    &&& verdicts.len() == before.len()
    &&& exists|at: Seq<int>| #[trigger]
        sources(verdicts, at) && after == Seq::new(at.len(), |i: int| before[at[i]])
}

/// Whether each of `callbacks` returned its verdict for `value`.
pub open spec fn called<T, F: FnMut(&T) -> bool>(
    callbacks: Seq<F>,
    value: &T,
    verdicts: Seq<bool>,
) -> bool {
    &&& verdicts.len() == callbacks.len()
    &&& forall|i: int|
        0 <= i < callbacks.len() ==> call_ensures(callbacks[i], (value,), #[trigger] verdicts[i])
}

/// Whether each of `callbacks` can be called with `value`.
pub open spec fn callable<T, F: FnMut(&T) -> bool>(callbacks: Seq<F>, value: &T) -> bool {
    forall|i: int| 0 <= i < callbacks.len() ==> call_requires(#[trigger] callbacks[i], (value,))
}

/// The callbacks that are called from position `i` on, by the positions that they had at first: the
/// one from `first` stands at `i` now, those behind it are the first `len`. Where a callback leaves,
/// the last one is called in its place next.
pub open spec fn turns_from(verdicts: Seq<bool>, i: int, first: int, len: int) -> Seq<int>
    decreases len - i,
{
    if i >= len {
        Seq::empty()
    } else if verdicts[first] {
        seq![first] + turns_from(verdicts, i + 1, i + 1, len)
    } else {
        seq![first] + turns_from(verdicts, i, len - 1, len - 1)
    }
}

/// Whether an execution has called each of `callbacks` when its turn came and nothing else, given
/// what each returned.
pub open spec fn called_in_turn<F>(callbacks: Seq<F>, verdicts: Seq<bool>) -> bool {
    calls::accounted(
        turns_from(verdicts, 0, 0, callbacks.len() as int).map_values(
            |p: int| (callbacks[p], verdicts[p]),
        ),
    )
}

proof fn lemma_turns(verdicts: Seq<bool>, i: int, first: int, len: int)
    requires
        0 <= i < len,
        first == i || first >= len,
    ensures
        ({
            let turns = turns_from(verdicts, i, first, len);
            &&& turns.len() == len - i
            &&& turns.no_duplicates()
            &&& forall|p: int|
                #[trigger] turns.contains(p) <==> p == first || i < p < len
        }),
    decreases len - i,
{
    let turns = turns_from(verdicts, i, first, len);
    let rest = if verdicts[first] {
        turns_from(verdicts, i + 1, i + 1, len)
    } else {
        turns_from(verdicts, i, len - 1, len - 1)
    };
    if verdicts[first] {
        if i + 1 < len {
            lemma_turns(verdicts, i + 1, i + 1, len);
        }
    } else if i < len - 1 {
        lemma_turns(verdicts, i, len - 1, len - 1);
    }
    assert forall|p: int| #[trigger] turns.contains(p) implies p == first || i < p < len by {
        let k = turns.index_of(p);
        if k > 0 {
            assert(rest[k - 1] == p);
            assert(rest.contains(p));
        }
    }
    assert forall|p: int| p == first || i < p < len implies #[trigger] turns.contains(p) by {
        if p == first {
            assert(turns[0] == p);
        } else {
            assert(rest.contains(p));
            assert(turns[rest.index_of(p) + 1] == p);
        }
    }
    assert forall|j: int, k: int| 0 <= j < k < turns.len() implies turns[j] != turns[k] by {
        assert(rest[k - 1] == turns[k]);
        assert(rest.contains(turns[k]));
        if j > 0 {
            assert(rest[j - 1] == turns[j]);
        }
    }
}

/// An execution calls each callback exactly once: in the order in which they are held as long as
/// they return true, and after the first that returns false the last one, which takes its place.
pub proof fn each_callback_is_called_once(verdicts: Seq<bool>)
    requires
        verdicts.len() > 0,
    ensures
        ({
            let turns = turns_from(verdicts, 0, 0, verdicts.len() as int);
            &&& turns.len() == verdicts.len()
            &&& turns.no_duplicates()
            &&& forall|p: int| 0 <= p < verdicts.len() <==> #[trigger] turns.contains(p)
            &&& turns[0] == 0
            &&& forall|k: int|
                0 <= k < verdicts.len() && (forall|j: int| 0 <= j < k ==> verdicts[j])
                    ==> #[trigger] turns[k] == k
            &&& forall|k: int|
                0 <= k < verdicts.len() - 1 && (forall|j: int| 0 <= j < k ==> verdicts[j])
                    && !#[trigger] verdicts[k] ==> turns[k + 1] == verdicts.len() - 1
        }),
{
    let turns = turns_from(verdicts, 0, 0, verdicts.len() as int);
    lemma_turns(verdicts, 0, 0, verdicts.len() as int);
    assert forall|k: int|
        0 <= k < verdicts.len() && (forall|j: int| 0 <= j < k ==> verdicts[j])
            implies #[trigger] turns[k] == k by {
        lemma_turns_in_order(verdicts, 0, k);
    }
    assert forall|k: int|
        0 <= k < verdicts.len() - 1 && (forall|j: int| 0 <= j < k ==> verdicts[j])
            && !#[trigger] verdicts[k] implies turns[k + 1] == verdicts.len() - 1 by {
        lemma_turns_in_order(verdicts, 0, k);
    }
}

proof fn lemma_turns_in_order(verdicts: Seq<bool>, i: int, k: int)
    requires
        0 <= i <= k < verdicts.len(),
        forall|j: int| 0 <= j < k ==> verdicts[j],
    ensures
        turns_from(verdicts, i, i, verdicts.len() as int).len() > k - i,
        turns_from(verdicts, i, i, verdicts.len() as int)[k - i] == k,
        !verdicts[k] && k + 1 < verdicts.len() ==> turns_from(
            verdicts,
            i,
            i,
            verdicts.len() as int,
        )[k - i + 1] == verdicts.len() - 1,
    decreases k - i,
{
    lemma_turns(verdicts, i, i, verdicts.len() as int);
    if i < k {
        lemma_turns_in_order(verdicts, i + 1, k);
        lemma_turns(verdicts, i + 1, i + 1, verdicts.len() as int);
    } else if !verdicts[k] && k + 1 < verdicts.len() {
        let n = verdicts.len() as int;
        let rest = turns_from(verdicts, k, n - 1, n - 1);
        lemma_turns(verdicts, k, n - 1, n - 1);
        assert(rest[0] == n - 1);
        assert((seq![k] + rest)[1] == rest[0]);
    }
}

/// Calls each of `callbacks` once with `value`, and drops those that return false.
pub fn execute_callbacks<T, F: FnMut(&T) -> bool>(callbacks: &mut Vec<F>, value: &T)
    requires
        callable(old(callbacks)@, value),
    ensures
        exists|verdicts: Seq<bool>| #[trigger]
            called(old(callbacks)@, value, verdicts) && retained(
                old(callbacks)@,
                verdicts,
                final(callbacks)@,
            ) && called_in_turn(old(callbacks)@, verdicts),
{
    let ghost before = callbacks@;
    let mut calls: Calls<F> = Calls::open();
    let ghost mut turns: Seq<int> = Seq::empty();
    proof {
        assert forall|v: Seq<bool>| #[trigger] turns_from(v, 0, 0, before.len() as int)
            == turns + turns_from(v, 0, 0, before.len() as int) by {
            assert(turns + turns_from(v, 0, 0, before.len() as int) =~= turns_from(
                v,
                0,
                0,
                before.len() as int,
            ));
        }
        assert(calls.made() =~= turns.map_values(|p: int| (before[p], false)));
    }
    let ghost n: int = before.len() as int;
    let ghost mut verdicts: Seq<bool> = Seq::new(before.len(), |p: int| false);
    let ghost mut at: Seq<int> = Seq::new(before.len(), |p: int| p);
    let ghost mut home: Seq<int> = Seq::new(before.len(), |p: int| 0);
    let mut finished: Vec<F> = Vec::new();
    let mut i: usize = 0;
    while i < callbacks.len()
        invariant
            callable(before, value),
            n == before.len() == verdicts.len() == home.len(),
            i <= at.len() == callbacks@.len() <= n,
            forall|p: int| 0 <= p < at.len() ==> 0 <= #[trigger] at[p] < n && callbacks@[p]
                == before[at[p]],
            forall|p: int| 0 <= p < i ==> verdicts[#[trigger] at[p]],
            forall|p: int| i < p < at.len() ==> #[trigger] at[p] == p,
            i < at.len() ==> at[i as int] == i || at[i as int] == at.len() && !verdicts[i as int],
            forall|p: int| 0 <= p < i && verdicts[p] ==> #[trigger] at[p] == p,
            forall|p: int|
                0 <= p < i && !verdicts[p] ==> #[trigger] at[p] >= at.len() && (i < at.len()
                    && at[i as int] == at.len() ==> at[p] > at.len()),
            forall|p: int, q: int|
                0 <= p < q < i && !verdicts[p] && !verdicts[q] ==> #[trigger] at[p]
                    > #[trigger] at[q],
            forall|o: int|
                0 <= o < n && !(i < at.len() && (o == at[i as int] || i < o < at.len()))
                    ==> call_ensures(before[o], (value,), #[trigger] verdicts[o]) && (verdicts[o]
                    ==> 0 <= home[o] < i && at[home[o]] == o),
            forall|k: int|
                0 <= k < turns.len() ==> 0 <= #[trigger] turns[k] < n && !(i < at.len() && (turns[k]
                    == at[i as int] || i < turns[k] < at.len())),
            calls.made() == turns.map_values(|p: int| (before[p], verdicts[p])),
            forall|v: Seq<bool>|
                (forall|k: int| 0 <= k < turns.len() ==> v[#[trigger] turns[k]] == verdicts[turns[k]])
                    ==> #[trigger] turns_from(v, 0, 0, n) == turns + turns_from(
                    v,
                    i as int,
                    if i < at.len() {
                        at[i as int]
                    } else {
                        i as int
                    },
                    at.len() as int,
                ),
        decreases callbacks.len() - i,
    {
        let ghost o: int = at[i as int];
        let ghost len: int = at.len() as int;
        assert(callbacks@[i as int] == before[o]);
        assert(call_requires(before[o], (value,)));
        let ghost before_verdicts = verdicts;
        let ghost before_turns = turns;
        let ghost made = calls.made();
        let ghost here: int = i as int;
        let func = &mut callbacks[i];
        if calls.call(func, value) {
            proof {
                verdicts = verdicts.update(o, true);
                home = home.update(o, i as int);
            }
            i = i + 1;
        } else {
            finished.push(callbacks.swap_remove(i));
            proof {
                verdicts = verdicts.update(o, false);
                at = at.update(i as int, at[len - 1]).drop_last();
            }
        }
        proof {
            turns = turns.push(o);
            assert(calls.made() =~= turns.map_values(|p: int| (before[p], verdicts[p])));
            let next = if i < at.len() {
                at[i as int]
            } else {
                i as int
            };
            assert forall|v: Seq<bool>|
                (forall|k: int| 0 <= k < turns.len() ==> v[#[trigger] turns[k]]
                    == verdicts[turns[k]]) implies #[trigger] turns_from(v, 0, 0, n) == turns
                + turns_from(v, i as int, next, at.len() as int) by {
                assert forall|k: int| 0 <= k < before_turns.len() implies v[
                #[trigger] before_turns[k]] == before_verdicts[before_turns[k]] by {
                    assert(turns[k] == before_turns[k]);
                }
                assert(turns[before_turns.len() as int] == o);
                assert(turns_from(v, here, o, len) == seq![o] + turns_from(
                    v,
                    i as int,
                    next,
                    at.len() as int,
                ));
                assert(before_turns + (seq![o] + turns_from(v, i as int, next, at.len() as int))
                    =~= turns + turns_from(v, i as int, next, at.len() as int));
            }
        }
    }
    proof {
        assert forall|p: int| 0 <= p < verdicts.len() && verdicts[p] implies #[trigger] at.contains(
            p,
        ) by {
            assert(at[home[p]] == p);
        }
        assert(sources(verdicts, at));
        assert(callbacks@ =~= Seq::new(at.len(), |i: int| before[at[i]]));
        assert(called(before, value, verdicts));
        assert(turns_from(verdicts, 0, 0, n) =~= turns);
    }
    calls.finish();
}

/// An execution manager that requires mutable access.
pub trait ExecManagerMut<T, W>: Sized {
    /// The wakers that are registered.
    spec fn wakers(&self) -> Seq<W>;

    /// Whether everything that is registered can be executed with `value`.
    spec fn executable(&self, value: &T) -> bool;

    /// Whether `after` is what an execution with `value` can leave.
    spec fn executed(&self, value: &T, after: &Self) -> bool;

    /// Execute all executables registered on the execution manager. `wake` is handed all wakers, in
    /// the order in which they are to be woken, and gives the value, with which everything else is
    /// executed after that.
    fn execute<'v, K: FnOnce(Vec<W>) -> &'v T>(&mut self, wake: K) where T: 'v
        requires
            forall|all: Vec<W>|
                all@ == old(self).wakers() ==> #[trigger] call_requires(wake, (all,)),
            forall|all: Vec<W>, value: &'v T|
                all@ == old(self).wakers() && #[trigger] call_ensures(wake, (all,), value)
                    ==> old(self).executable(value),
        ensures
            exists|all: Vec<W>, value: &'v T|
                all@ == old(self).wakers() && #[trigger] call_ensures(wake, (all,), value)
                    && old(self).executed(value, final(self)),
    ;
}

impl<T, W> ExecManagerMut<T, W> for () {
    open spec fn wakers(&self) -> Seq<W> {
        Seq::empty()
    }

    open spec fn executable(&self, value: &T) -> bool {
        true
    }

    open spec fn executed(&self, value: &T, after: &()) -> bool {
        true
    }

    fn execute<'v, K: FnOnce(Vec<W>) -> &'v T>(&mut self, wake: K) where T: 'v {
        let all: Vec<W> = Vec::new();
        let _ = wake(all);
    }
}

/// An execution manager that executables can be registered on.
pub trait ExecRegisterMut<X>: Sized {
    /// Whether `after` is this manager with `x` registered.
    spec fn registered(&self, x: X, after: &Self) -> bool;

    /// Register an executable unit on the callback manager's execution set. In most cases this
    /// will usually be a function.
    fn register(&mut self, x: X)
        ensures
            old(self).registered(x, final(self)),
    ;
}

/// An execution manager that only requires immutable access.
pub trait ExecManager<T>: Sized {
    /// Execute all executables registered on the execution manager.
    fn execute(&self, value: &T);
}

/// An execution manager that executables can be registered on with immutable access.
pub trait ExecRegister<X>: Sized {
    /// Register an executable unit on the callback manager's execution set. In most cases this
    /// will usually be a function.
    fn register(&self, x: X);
}

/// A way of getting at an execution manager to execute.
pub trait ExecutionStrategy<T, W>: Sized {
    /// The wakers that are registered.
    spec fn wakers(&self) -> Seq<W>;

    /// Whether everything that is registered can be executed with `value`.
    spec fn executable(&self, value: &T) -> bool;

    /// Whether `after` is what an execution with `value` can leave.
    spec fn executed(&self, value: &T, after: &Self) -> bool;

    /// Execute all executables that are registered. `wake` is handed all wakers, in the order in
    /// which they are to be woken, and gives the value, with which everything else is executed
    /// after that.
    fn execute<'v, K: FnOnce(Vec<W>) -> &'v T>(&mut self, wake: K) where T: 'v
        requires
            forall|all: Vec<W>|
                all@ == old(self).wakers() ==> #[trigger] call_requires(wake, (all,)),
            forall|all: Vec<W>, value: &'v T|
                all@ == old(self).wakers() && #[trigger] call_ensures(wake, (all,), value)
                    ==> old(self).executable(value),
        ensures
            exists|all: Vec<W>, value: &'v T|
                all@ == old(self).wakers() && #[trigger] call_ensures(wake, (all,), value)
                    && old(self).executed(value, final(self)),
    ;
}

/// A way of getting at an execution manager to register.
pub trait RegistrationStrategy<T, W, X>: ExecutionStrategy<T, W> {
    /// Whether `after` is the strategy with `x` registered.
    spec fn registered(&self, x: X, after: &Self) -> bool;

    /// Register an executable unit.
    fn register(&mut self, x: X)
        ensures
            old(self).registered(x, final(self)),
    ;
}

/// Access to a manager that only requires immutable access.
#[verifier::reject_recursive_types(T)]
pub struct AccessStrategyImmut<T, E: ExecManager<T>>(pub E, pub PhantomData<T>);

impl<T, W, E: ExecManager<T>> ExecutionStrategy<T, W> for AccessStrategyImmut<T, E> {
    open spec fn wakers(&self) -> Seq<W> {
        Seq::empty()
    }

    open spec fn executable(&self, value: &T) -> bool {
        true
    }

    open spec fn executed(&self, value: &T, after: &Self) -> bool {
        call_ensures(E::execute, (&self.0, value), ()) && *after == *self
    }

    fn execute<'v, K: FnOnce(Vec<W>) -> &'v T>(&mut self, wake: K) where T: 'v {
        let all: Vec<W> = Vec::new();
        let value = wake(all);
        self.0.execute(value);
        assert(call_ensures(wake, (all,), value));
    }
}

impl<T, W, X, E: ExecManager<T> + ExecRegister<X>> RegistrationStrategy<
    T,
    W,
    X,
> for AccessStrategyImmut<T, E> {
    open spec fn registered(&self, x: X, after: &Self) -> bool {
        call_ensures(E::register, (&self.0, x), ()) && *after == *self
    }

    fn register(&mut self, x: X) {
        self.0.register(x);
    }
}

/// Access to a manager that requires mutable access.
#[verifier::reject_recursive_types(T)]
#[verifier::reject_recursive_types(W)]
pub struct AccessStrategyMut<T, W, E: ExecManagerMut<T, W>>(pub E, pub PhantomData<(T, W)>);

impl<T, W, E: ExecManagerMut<T, W>> ExecutionStrategy<T, W> for AccessStrategyMut<T, W, E> {
    open spec fn wakers(&self) -> Seq<W> {
        self.0.wakers()
    }

    open spec fn executable(&self, value: &T) -> bool {
        self.0.executable(value)
    }

    open spec fn executed(&self, value: &T, after: &Self) -> bool {
        self.0.executed(value, &after.0)
    }

    fn execute<'v, K: FnOnce(Vec<W>) -> &'v T>(&mut self, wake: K) where T: 'v {
        self.0.execute(wake);
    }
}

impl<T, W, X, E: ExecManagerMut<T, W> + ExecRegisterMut<X>> RegistrationStrategy<
    T,
    W,
    X,
> for AccessStrategyMut<T, W, E> {
    open spec fn registered(&self, x: X, after: &Self) -> bool {
        self.0.registered(x, &after.0)
    }

    fn register(&mut self, x: X) {
        self.0.register(x);
    }
}

proof fn lemma_same_sources(verdicts: Seq<bool>, left: Seq<int>, right: Seq<int>, i: int)
    requires
        sources(verdicts, left),
        sources(verdicts, right),
        left.len() == right.len(),
        0 <= i < left.len(),
        forall|j: int| 0 <= j < i ==> left[j] == right[j],
    ensures
        left[i] >= right[i],
{
    if left[i] < right[i] {
        let p = right[i];
        assert(left.contains(p));
        let j = left.index_of(p);
        assert(left[j] == p);
        assert(right[j] != p || j == i);
    }
}

proof fn lemma_sources_unique(verdicts: Seq<bool>, left: Seq<int>, right: Seq<int>)
    requires
        sources(verdicts, left),
        sources(verdicts, right),
    ensures
        left == right,
{
    assert(left.to_set() =~= right.to_set()) by {
        assert forall|p: int| left.to_set().contains(p) == right.to_set().contains(p) by {
            if left.contains(p) {
                assert(verdicts[left[left.index_of(p)]]);
            }
            if right.contains(p) {
                assert(verdicts[right[right.index_of(p)]]);
            }
        }
    }
    left.unique_seq_to_set();
    right.unique_seq_to_set();
    lemma_sources_agree(verdicts, left, right, left.len() as int);
    assert(left =~= right);
}

/// What each callback returned decides which of them stay and in what order.
pub proof fn verdicts_decide<F>(
    before: Seq<F>,
    verdicts: Seq<bool>,
    left: Seq<F>,
    right: Seq<F>,
)
    requires
        retained(before, verdicts, left),
        retained(before, verdicts, right),
    ensures
        left == right,
{
    let at_left = choose|at: Seq<int>| #[trigger]
        sources(verdicts, at) && left == Seq::new(at.len(), |i: int| before[at[i]]);
    let at_right = choose|at: Seq<int>| #[trigger]
        sources(verdicts, at) && right == Seq::new(at.len(), |i: int| before[at[i]]);
    lemma_sources_unique(verdicts, at_left, at_right);
}

proof fn lemma_sources_agree(verdicts: Seq<bool>, left: Seq<int>, right: Seq<int>, upto: int)
    requires
        sources(verdicts, left),
        sources(verdicts, right),
        left.len() == right.len(),
        0 <= upto <= left.len(),
    ensures
        forall|i: int| 0 <= i < upto ==> left[i] == right[i],
    decreases upto,
{
    if upto > 0 {
        lemma_sources_agree(verdicts, left, right, upto - 1);
        lemma_same_sources(verdicts, left, right, upto - 1);
        lemma_same_sources(verdicts, right, left, upto - 1);
    }
}

/// Where every callback returns true, all stay in their order.
pub proof fn nothing_leaves<F>(before: Seq<F>, verdicts: Seq<bool>, after: Seq<F>)
    requires
        retained(before, verdicts, after),
        forall|i: int| 0 <= i < verdicts.len() ==> verdicts[i],
    ensures
        after == before,
{
    let all = Seq::new(before.len(), |i: int| i);
    assert forall|p: int| 0 <= p < verdicts.len() && verdicts[p] implies #[trigger] all.contains(
        p,
    ) by {
        assert(all[p] == p);
    }
    assert(sources(verdicts, all));
    assert(before =~= Seq::new(all.len(), |i: int| before[all[i]]));
    verdicts_decide(before, verdicts, after, before);
}

/// Where every callback returns false, none stays.
pub proof fn everything_leaves<F>(before: Seq<F>, verdicts: Seq<bool>, after: Seq<F>)
    requires
        retained(before, verdicts, after),
        forall|i: int| 0 <= i < verdicts.len() ==> !verdicts[i],
    ensures
        after.len() == 0,
{
    let at = choose|at: Seq<int>| #[trigger]
        sources(verdicts, at) && after == Seq::new(at.len(), |i: int| before[at[i]]);
    if at.len() > 0 {
        assert(verdicts[at[0]]);
    }
}

/// Whether `callbacks` are the callbacks that are held before, between and after consecutive
/// executions with `values`, in which they returned `verdicts`, with nothing registered meanwhile.
pub open spec fn executions<T, F: FnMut(&T) -> bool>(
    callbacks: Seq<Seq<F>>,
    values: Seq<T>,
    verdicts: Seq<Seq<bool>>,
) -> bool {
    &&& callbacks.len() == values.len() + 1
    &&& verdicts.len() == values.len()
    &&& forall|k: int|
        0 <= k < values.len() ==> called(callbacks[k], &values[k], #[trigger] verdicts[k])
            && retained(callbacks[k], verdicts[k], callbacks[k + 1])
}

/// Where each of the callbacks that stay after `verdicts` came from.
pub open spec fn stayed(verdicts: Seq<bool>) -> Seq<int> {
    choose|at: Seq<int>| sources(verdicts, at)
}

/// Which of the `count` callbacks that were held at first are held after `step` executions.
pub open spec fn origins(count: nat, verdicts: Seq<Seq<bool>>, step: nat) -> Seq<int>
    decreases step,
{
    if step == 0 {
        Seq::new(count, |p: int| p)
    } else {
        let before = origins(count, verdicts, (step - 1) as nat);
        let at = stayed(verdicts[step - 1]);
        Seq::new(at.len(), |i: int| before[at[i]])
    }
}

/// Whether the callback that was at position `first` at first is called in the execution after
/// `step` others, and returns `verdict`.
pub open spec fn returned(
    count: nat,
    verdicts: Seq<Seq<bool>>,
    step: nat,
    first: int,
    verdict: bool,
) -> bool {
    exists|p: int|
        0 <= p < origins(count, verdicts, step).len() && #[trigger] origins(
            count,
            verdicts,
            step,
        )[p] == first && verdicts[step as int][p] == verdict
}

/// Over any number of executions with nothing registered meanwhile, the callbacks that are held,
/// and so are called by the next execution, are those that have returned true every time, each
/// once. One that has returned false is never called again.
pub proof fn callbacks_are_called_until_they_return_false<T, F: FnMut(&T) -> bool>(
    callbacks: Seq<Seq<F>>,
    values: Seq<T>,
    verdicts: Seq<Seq<bool>>,
    step: nat,
)
    requires
        executions(callbacks, values, verdicts),
        step <= values.len(),
    ensures
        ({
            let count = callbacks[0].len();
            let held = origins(count, verdicts, step);
            &&& callbacks[step as int] == Seq::new(held.len(), |p: int| callbacks[0][held[p]])
            &&& held.no_duplicates()
            &&& forall|p: int| 0 <= p < held.len() ==> 0 <= #[trigger] held[p] < count
            &&& forall|first: int|
                0 <= first < count ==> (#[trigger] held.contains(first) <==> forall|k: nat|
                    k < step ==> #[trigger] returned(count, verdicts, k, first, true))
            &&& forall|first: int, k: nat|
                k < step && #[trigger] returned(count, verdicts, k, first, false)
                    ==> !held.contains(first)
        }),
    decreases step,
{
    let count = callbacks[0].len();
    let held = origins(count, verdicts, step);
    if step == 0 {
        assert(callbacks[0] =~= Seq::new(held.len(), |p: int| callbacks[0][held[p]]));
        assert forall|first: int| 0 <= first < count implies #[trigger] held.contains(first) by {
            assert(held[first] == first);
        }
    } else {
        let last = (step - 1) as nat;
        callbacks_are_called_until_they_return_false(callbacks, values, verdicts, last);
        let before = origins(count, verdicts, last);
        let told = verdicts[last as int];
        assert(called(callbacks[last as int], &values[last as int], told));
        let at = choose|at: Seq<int>| #[trigger]
            sources(told, at) && callbacks[step as int] == Seq::new(
                at.len(),
                |i: int| callbacks[last as int][at[i]],
            );
        lemma_sources_unique(told, at, stayed(told));
        assert(callbacks[step as int] =~= Seq::new(held.len(), |p: int| callbacks[0][held[p]]));
        assert forall|first: int| 0 <= first < count implies (#[trigger] held.contains(first)
            <==> before.contains(first) && returned(count, verdicts, last, first, true)) by {
            if held.contains(first) {
                let q = held.index_of(first);
                assert(before[at[q]] == first);
            }
            if returned(count, verdicts, last, first, true) {
                let p = choose|p: int|
                    0 <= p < before.len() && #[trigger] before[p] == first && told[p];
                assert(at.contains(p));
                let q = at.index_of(p);
                assert(held[q] == first);
            }
        }
        assert forall|first: int| 0 <= first < count implies (#[trigger] held.contains(first)
            <==> forall|k: nat|
            k < step ==> #[trigger] returned(count, verdicts, k, first, true)) by {
            if before.contains(first) && returned(count, verdicts, last, first, true) {
                assert forall|k: nat| k < step implies #[trigger] returned(
                    count,
                    verdicts,
                    k,
                    first,
                    true,
                ) by {
                    if k < last {
                        assert(before.contains(first));
                    }
                }
            }
        }
        assert forall|first: int, k: nat|
            k < step && #[trigger] returned(count, verdicts, k, first, false) implies !held.contains(
            first,
        ) by {
            if held.contains(first) {
                let q = held.index_of(first);
                assert(before[at[q]] == first && told[at[q]]);
                assert(before.contains(first));
                if k == last {
                    let p = choose|p: int|
                        0 <= p < before.len() && #[trigger] before[p] == first && !told[p];
                    assert(before[p] == before[at[q]]);
                }
            }
        }
    }
}

/// Each callback has returned its verdict, and each can be called where all can.
pub proof fn each_callback_gives_a_verdict<T, F: FnMut(&T) -> bool>(
    callbacks: Seq<F>,
    value: &T,
    verdicts: Seq<bool>,
    i: int,
)
    requires
        0 <= i < callbacks.len(),
    ensures
        called(callbacks, value, verdicts) ==> verdicts.len() == callbacks.len() && call_ensures(
            callbacks[i],
            (value,),
            verdicts[i],
        ),
        callable(callbacks, value) ==> call_requires(callbacks[i], (value,)),
        (forall|k: int|
            0 <= k < callbacks.len() ==> call_requires(#[trigger] callbacks[k], (value,)))
            ==> callable(callbacks, value),
{
    if called(callbacks, value, verdicts) {
        assert(call_ensures(callbacks[i], (value,), verdicts[i]));
    }
}

/// Exactly the callbacks that returned true stay, each of them once: at its own place where that
/// is still there.
pub proof fn exactly_those_that_return_true_stay<F>(
    before: Seq<F>,
    verdicts: Seq<bool>,
    after: Seq<F>,
) -> (at: Seq<int>)
    requires
        retained(before, verdicts, after),
    ensures
        verdicts.len() == before.len(),
        at.len() == after.len() <= before.len(),
        forall|i: int|
            0 <= i < after.len() ==> 0 <= #[trigger] at[i] < before.len() && verdicts[at[i]]
                && after[i] == before[at[i]],
        forall|i: int, j: int| 0 <= i < j < at.len() ==> #[trigger] at[i] != #[trigger] at[j],
        forall|p: int|
            0 <= p < before.len() && #[trigger] verdicts[p] ==> exists|i: int|
                0 <= i < at.len() && #[trigger] at[i] == p,
        forall|i: int|
            0 <= i < after.len() && verdicts[i] ==> #[trigger] after[i] == before[i],
{
    let at = choose|at: Seq<int>| #[trigger]
        sources(verdicts, at) && after == Seq::new(at.len(), |i: int| before[at[i]]);
    assert forall|i: int, j: int| 0 <= i < j < at.len() implies #[trigger] at[i]
        != #[trigger] at[j] by {}
    assert forall|p: int| 0 <= p < before.len() && #[trigger] verdicts[p] implies exists|i: int|
        0 <= i < at.len() && #[trigger] at[i] == p by {
        assert(at.contains(p));
        assert(at[at.index_of(p)] == p);
    }
    assert forall|i: int| 0 <= i < after.len() && verdicts[i] implies #[trigger] after[i]
        == before[i] by {
        assert(at[i] == i);
    }
    at
}

/// Where one callback alone returns false, the last one takes its place.
pub proof fn the_last_callback_fills_the_gap<F>(
    before: Seq<F>,
    verdicts: Seq<bool>,
    after: Seq<F>,
    gap: int,
)
    requires
        retained(before, verdicts, after),
        0 <= gap < before.len(),
        !verdicts[gap],
        forall|i: int| 0 <= i < before.len() && i != gap ==> verdicts[i],
    ensures
        gap == before.len() - 1 ==> after == before.drop_last(),
        gap < before.len() - 1 ==> after == before.drop_last().update(gap, before.last()),
{
    let n = before.len() as int;
    let at = Seq::new(
        (n - 1) as nat,
        |i: int|
            if i == gap {
                n - 1
            } else {
                i
            },
    );
    assert forall|p: int| 0 <= p < verdicts.len() && verdicts[p] implies #[trigger] at.contains(
        p,
    ) by {
        if p == n - 1 {
            assert(at[gap] == p);
        } else {
            assert(at[p] == p);
        }
    }
    assert(sources(verdicts, at));
    let kept = Seq::new(at.len(), |i: int| before[at[i]]);
    assert(retained(before, verdicts, kept));
    verdicts_decide(before, verdicts, after, kept);
    if gap == n - 1 {
        assert(kept =~= before.drop_last());
    } else {
        assert(kept =~= before.drop_last().update(gap, before.last()));
    }
}

/// Where two callbacks return false that lie before the last two, the last one takes the place of
/// the first and the one before it that of the second.
pub proof fn the_last_callbacks_fill_the_gaps_in_turn<F>(
    before: Seq<F>,
    verdicts: Seq<bool>,
    after: Seq<F>,
    first: int,
    second: int,
)
    requires
        retained(before, verdicts, after),
        0 <= first < second < before.len() - 2,
        !verdicts[first],
        !verdicts[second],
        forall|i: int| 0 <= i < before.len() && i != first && i != second ==> verdicts[i],
    ensures
        after == before.take(before.len() - 2).update(first, before[before.len() - 1]).update(
            second,
            before[before.len() - 2],
        ),
{
    let n = before.len() as int;
    let at = Seq::new(
        (n - 2) as nat,
        |i: int|
            if i == first {
                n - 1
            } else if i == second {
                n - 2
            } else {
                i
            },
    );
    assert forall|p: int| 0 <= p < verdicts.len() && verdicts[p] implies #[trigger] at.contains(
        p,
    ) by {
        if p == n - 1 {
            assert(at[first] == p);
        } else if p == n - 2 {
            assert(at[second] == p);
        } else {
            assert(at[p] == p);
        }
    }
    assert(sources(verdicts, at));
    let kept = Seq::new(at.len(), |i: int| before[at[i]]);
    assert(retained(before, verdicts, kept));
    verdicts_decide(before, verdicts, after, kept);
    assert(kept =~= before.take(n - 2).update(first, before[n - 1]).update(second, before[n - 2]));
}

/// A strategy with immutable access asks its manager to execute or to register, and leaves
/// everything else to it.
pub proof fn immutable_access_asks_the_manager<T, W, X, E: ExecManager<T> + ExecRegister<X>>(
    before: AccessStrategyImmut<T, E>,
    value: &T,
    x: X,
    after: AccessStrategyImmut<T, E>,
)
    ensures
        ExecutionStrategy::<T, W>::wakers(&before).len() == 0,
        ExecutionStrategy::<T, W>::executable(&before, value),
        ExecutionStrategy::<T, W>::executed(&before, value, &after) <==> call_ensures(
            E::execute,
            (&before.0, value),
            (),
        ) && after == before,
        RegistrationStrategy::<T, W, X>::registered(&before, x, &after) <==> call_ensures(
            E::register,
            (&before.0, x),
            (),
        ) && after == before,
{
}

/// A strategy with mutable access executes and registers as its manager does.
pub proof fn mutable_access_is_the_managers<T, W, X, E: ExecManagerMut<T, W> + ExecRegisterMut<X>>(
    before: AccessStrategyMut<T, W, E>,
    value: &T,
    x: X,
    after: AccessStrategyMut<T, W, E>,
)
    ensures
        ExecutionStrategy::<T, W>::wakers(&before) == before.0.wakers(),
        ExecutionStrategy::<T, W>::executable(&before, value) <==> before.0.executable(value),
        ExecutionStrategy::<T, W>::executed(&before, value, &after) <==> before.0.executed(
            value,
            &after.0,
        ),
        RegistrationStrategy::<T, W, X>::registered(&before, x, &after) <==> before.0.registered(
            x,
            &after.0,
        ),
{
}

/// Where there is no manager, there is nobody to be woken and nothing that could not be executed.
pub proof fn no_manager_has_nobody_to_wake<T, W>(value: &T)
    ensures
        ExecManagerMut::<T, W>::wakers(&()).len() == 0,
        ExecManagerMut::<T, W>::executable(&(), value),
{
}

/// An execution gets a verdict of each callback, calls it exactly once, and keeps exactly those that
/// return true.
pub proof fn an_execution_asks_each_callback<T, F: FnMut(&T) -> bool>(value: &T)
    ensures
        forall|callbacks: &mut Vec<F>|
            #[trigger] call_ensures(execute_callbacks::<T, F>, (callbacks, value), ()) ==> exists|
                verdicts: Seq<bool>,
            |
                #[trigger] called_in_turn((*callbacks)@, verdicts) && verdicts.len()
                    == (*callbacks)@.len() && (forall|i: int|
                    0 <= i < verdicts.len() ==> call_ensures(
                        (*callbacks)@[i],
                        (value,),
                        #[trigger] verdicts[i],
                    )) && retained((*callbacks)@, verdicts, (*final(callbacks))@),
{
}

} // verus!
