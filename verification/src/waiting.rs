//! Waiting on observers, one step at a time.
//!
//! What a wait has to do next is decided here; whoever runs the wait performs it and hands back
//! what came of it: a version, a value, or the outcome of another wait.

use vstd::prelude::*;

use crate::observer::{
    FusedSensorObserver, MappedSensorObserver, OwnedData, SensorObserve, SensorObserver,
};
use crate::poll::Poll;
use crate::version::{FusedVersion, SymResult, Version, VersionFunctionality};

verus! {

/// Observers that can wait.
pub trait SensorObserveAsync: SensorObserve {
    /// Whether `outcome` is what a wait for a change comes to at `latest`.
    spec fn changes(
        &self,
        latest: Self::Checkpoint,
        outcome: Poll<SymResult<Self::Checkpoint>>,
    ) -> bool;

    /// Takes one step of a wait until the sensor value is updated. This does **not** update the
    /// observer's version. A closed sensor ends the wait with an error.
    fn wait_until_changed(&self, latest: &Self::Checkpoint) -> (outcome: Poll<
        SymResult<Self::Checkpoint>,
    >)
        ensures
            self.changes(*latest, outcome),
            latest.ended() ==> (outcome matches Poll::Ready(Err(_))),
            outcome matches Poll::Ready(Ok(_)) ==> self.outdated(*latest),
    ;

    /// A wait on a closed sensor is over, with an error.
    proof fn ended_waits_are_over(
        &self,
        latest: Self::Checkpoint,
        outcome: Poll<SymResult<Self::Checkpoint>>,
    )
        requires
            self.changes(latest, outcome),
            latest.ended(),
        ensures
            outcome matches Poll::Ready(Err(_)),
    ;

    /// A wait comes to a change only where there is one.
    proof fn only_changes_end_waits(
        &self,
        latest: Self::Checkpoint,
        outcome: Poll<SymResult<Self::Checkpoint>>,
    )
        requires
            self.changes(latest, outcome),
            outcome matches Poll::Ready(Ok(_)),
        ensures
            self.outdated(latest),
    ;
}

impl<T> SensorObserveAsync for SensorObserver<T> {
    open spec fn changes(&self, latest: Version, outcome: Poll<SymResult<Version>>) -> bool {
        outcome == if latest.is_closed() {
            Poll::Ready(Err(latest))
        } else if self.outdated(latest) {
            Poll::Ready(Ok(latest))
        } else {
            Poll::Pending
        }
    }

    fn wait_until_changed(&self, latest: &Version) -> (outcome: Poll<SymResult<Version>>) {
        if latest.closed_bit_set() {
            return Poll::Ready(Err(*latest));
        }
        if self.has_changed(latest) {
            return Poll::Ready(Ok(*latest));
        }
        Poll::Pending
    }

    proof fn ended_waits_are_over(&self, latest: Version, outcome: Poll<SymResult<Version>>) {
    }

    proof fn only_changes_end_waits(&self, latest: Version, outcome: Poll<SymResult<Version>>) {
    }
}

impl<T> SensorObserver<T> {
    /// The version from which a wait for a condition starts when the sensor is at `latest`. It
    /// lies one update back, so that the current value is checked even if it is marked as seen.
    pub fn wait_for(&self, latest: Version) -> (reference: Version)
        ensures
            reference == latest.previous(),
    {
        let mut reference_version = latest;
        reference_version.decrement();
        reference_version
    }

    /// The version from which a wait for a condition starts that ignores the value already seen.
    pub fn wait_for_next(&self) -> (reference: Version)
        ensures
            reference == self.checkpoint(),
    {
        self.save_checkpoint()
    }

    /// Ends a wait for a condition that came to `guard` at `latest`: the version is marked as
    /// seen, and a closed sensor makes the result an error.
    pub fn finish_wait<G>(&mut self, guard: G, latest: Version) -> (result: SymResult<G>)
        ensures
            final(self).checkpoint() == latest,
            result == if latest.is_closed() {
                Err(guard)
            } else {
                Ok(guard)
            },
    {
        self.mark_seen(&latest);
        match latest.closed_bit_set() {
            true => Err(guard),
            false => Ok(guard),
        }
    }
}

impl<A: SensorObserveAsync, T, F: FnMut(&A::Target) -> T> SensorObserveAsync for MappedSensorObserver<
    A,
    T,
    F,
> {
    open spec fn changes(
        &self,
        latest: A::Checkpoint,
        outcome: Poll<SymResult<A::Checkpoint>>,
    ) -> bool {
        self.inner.changes(latest, outcome)
    }

    fn wait_until_changed(&self, latest: &A::Checkpoint) -> (outcome: Poll<
        SymResult<A::Checkpoint>,
    >) {
        self.inner.wait_until_changed(latest)
    }

    proof fn ended_waits_are_over(
        &self,
        latest: A::Checkpoint,
        outcome: Poll<SymResult<A::Checkpoint>>,
    ) {
        self.inner.ended_waits_are_over(latest, outcome);
    }

    proof fn only_changes_end_waits(
        &self,
        latest: A::Checkpoint,
        outcome: Poll<SymResult<A::Checkpoint>>,
    ) {
        self.inner.only_changes_end_waits(latest, outcome);
    }
}

impl<A: SensorObserve, T, F: FnMut(&A::Target) -> T> MappedSensorObserver<A, T, F> {
    /// The mapped form of a value that the inner observer has read.
    pub fn read(&mut self, value: &A::Target) -> (mapped: OwnedData<T>)
        requires
            call_requires(old(self).map, (value,)),
        ensures
            call_ensures(old(self).map, (value,), mapped.0),
            *final(self) == *old(self),
    {
        let map = &mut self.map;
        OwnedData(map(value))
    }

    /// Tests a value that the inner wait has come upon: it is mapped, and the condition is tested
    /// on the mapped value, which is kept. The inner observer is busy with its wait meanwhile, so
    /// that only the mapping function is taken.
    pub fn check<C: FnMut(&T) -> bool>(
        map: &mut F,
        value: &A::Target,
        condition: &mut C,
        mapped: &mut Option<OwnedData<T>>,
    ) -> (holds: bool)
        requires
            call_requires(*old(map), (value,)),
            forall|t: T|
                call_ensures(*old(map), (value,), t) ==> #[trigger] call_requires(
                    *old(condition),
                    (&t,),
                ),
        ensures
            *final(map) == *old(map),
            *final(condition) == *old(condition),
            *final(mapped) matches Some(kept) && call_ensures(*old(map), (value,), kept.0)
                && call_ensures(*old(condition), (&kept.0,), holds),
    {
        let fresh = OwnedData(map(value));
        let holds = condition(&fresh.0);
        *mapped = Some(fresh);
        holds
    }

    /// The result of a wait for a condition: the mapped value that fulfilled it, or the mapped
    /// form of the value at which the sensor closed.
    pub fn finish_wait(
        &mut self,
        outcome: SymResult<&A::Target>,
        mapped: Option<OwnedData<T>>,
    ) -> (result: SymResult<OwnedData<T>>)
        requires
            match outcome {
                Ok(_) => mapped is Some,
                Err(value) => call_requires(old(self).map, (value,)),
            },
        ensures
            *final(self) == *old(self),
            match outcome {
                Ok(_) => result == Ok::<OwnedData<T>, OwnedData<T>>(mapped->0),
                Err(value) => result matches Err(last) && call_ensures(
                    old(self).map,
                    (value,),
                    last.0,
                ),
            },
    {
        match outcome {
            Ok(_) => Ok(mapped.unwrap()),
            Err(value) => Err(self.read(value)),
        }
    }
}

/// A wait for a change of either of two sensors.
pub struct FusedWaitChangedFut<
    CA: VersionFunctionality + Clone,
    CB: VersionFunctionality + Clone,
> {
    /// Whether the first wait has not ended.
    pub a: bool,
    /// The checkpoint of the first observer: the version at which it closed, once it has.
    pub ca: CA,
    /// The checkpoint of the second observer.
    pub cb: CB,
}

/// What a fused wait comes to when the first wait has brought nothing: whatever the second wait
/// comes to, together with the checkpoint `ca` of the first observer.
pub open spec fn second_decides<
    CA: VersionFunctionality + Clone,
    CB: VersionFunctionality + Clone,
    PB: FnOnce() -> Poll<SymResult<CB>>,
>(ca: CA, poll_b: PB, result: Poll<SymResult<FusedVersion<CA, CB>>>) -> bool {
    exists|polled: Poll<SymResult<CB>>| #[trigger]
        call_ensures(poll_b, (), polled) && match polled {
            Poll::Pending => result is Pending,
            Poll::Ready(Ok(checkpoint)) => result matches Poll::Ready(Ok(version)) && version.b
                == checkpoint && cloned(ca, version.a),
            Poll::Ready(Err(checkpoint)) => result matches Poll::Ready(Err(version)) && version.b
                == checkpoint && cloned(ca, version.a),
        }
}

impl<
    CA: VersionFunctionality + Clone,
    CB: VersionFunctionality + Clone,
> FusedWaitChangedFut<CA, CB> {
    /// A wait for a change of either of two sensors, with the checkpoints of their observers.
    pub fn new(ca: CA, cb: CB) -> (future: Self)
        ensures
            future.a,
            future.ca == ca,
            future.cb == cb,
    {
        FusedWaitChangedFut { a: true, ca, cb }
    }

    /// Takes one step. The first wait is polled until it ends; a change there ends the fused wait
    /// without the second one being polled. Once the first sensor is closed the second one
    /// decides.
    pub fn poll<
        PA: FnOnce() -> Poll<SymResult<CA>>,
        PB: FnOnce() -> Poll<SymResult<CB>>,
    >(&mut self, poll_a: PA, poll_b: PB) -> (result: Poll<SymResult<FusedVersion<CA, CB>>>)
        requires
            call_requires(poll_a, ()),
            call_requires(poll_b, ()),
        ensures
            !old(self).a ==> *final(self) == *old(self) && second_decides(
                old(self).ca,
                poll_b,
                result,
            ),
            old(self).a ==> exists|polled: Poll<SymResult<CA>>| #[trigger]
                call_ensures(poll_a, (), polled) && match polled {
                    Poll::Ready(Ok(checkpoint)) => {
                        &&& *final(self) == *old(self)
                        &&& result matches Poll::Ready(Ok(version)) && version.a == checkpoint
                            && cloned(old(self).cb, version.b)
                    },
                    Poll::Ready(Err(checkpoint)) => {
                        &&& *final(self) == (FusedWaitChangedFut {
                            a: false,
                            ca: checkpoint,
                            ..*old(self)
                        })
                        &&& second_decides(checkpoint, poll_b, result)
                    },
                    Poll::Pending => {
                        &&& *final(self) == *old(self)
                        &&& second_decides(old(self).ca, poll_b, result)
                    },
                },
    {
        if self.a {
            let polled = poll_a();
            assert(call_ensures(poll_a, (), polled));
            if let Poll::Ready(checkpoint_a_res) = polled {
                match checkpoint_a_res {
                    Ok(checkpoint) => {
                        return Poll::Ready(
                            Ok(FusedVersion { a: checkpoint, b: self.cb.clone() }),
                        );
                    },
                    Err(checkpoint) => {
                        self.ca = checkpoint;
                        self.a = false;
                    },
                }
            }
        }
        let polled = poll_b();
        assert(call_ensures(poll_b, (), polled));
        match polled {
            Poll::Pending => Poll::Pending,
            Poll::Ready(Ok(checkpoint)) => Poll::Ready(
                Ok(FusedVersion { a: self.ca.clone(), b: checkpoint }),
            ),
            Poll::Ready(Err(checkpoint)) => Poll::Ready(
                Err(FusedVersion { a: self.ca.clone(), b: checkpoint }),
            ),
        }
    }
}

/// What a step of a fused wait comes to when the first observer has brought nothing: whatever the
/// second one comes to, together with the checkpoint `ca`.
pub open spec fn second_changes<B: SensorObserveAsync, CA: VersionFunctionality + Clone>(
    ca: CA,
    b: B,
    latest: B::Checkpoint,
    outcome: Poll<SymResult<FusedVersion<CA, B::Checkpoint>>>,
) -> bool {
    exists|polled: Poll<SymResult<B::Checkpoint>>| #[trigger]
        b.changes(latest, polled) && match polled {
            Poll::Pending => outcome is Pending,
            Poll::Ready(Ok(checkpoint)) => outcome matches Poll::Ready(Ok(version)) && version.b
                == checkpoint && cloned(ca, version.a),
            Poll::Ready(Err(checkpoint)) => outcome matches Poll::Ready(Err(version)) && version.b
                == checkpoint && cloned(ca, version.a),
        }
}

impl<
    A: SensorObserveAsync,
    B: SensorObserveAsync,
    T,
    F: FnMut(&A::Target, &B::Target) -> T,
> SensorObserveAsync for FusedSensorObserver<A, B, T, F> {
    open spec fn changes(
        &self,
        latest: FusedVersion<A::Checkpoint, B::Checkpoint>,
        outcome: Poll<SymResult<FusedVersion<A::Checkpoint, B::Checkpoint>>>,
    ) -> bool {
        exists|polled: Poll<SymResult<A::Checkpoint>>| #[trigger]
            self.a.changes(latest.a, polled) && match polled {
                Poll::Ready(Ok(checkpoint)) => outcome matches Poll::Ready(Ok(version))
                    && version.a == checkpoint && cloned(self.b.checkpoint(), version.b),
                Poll::Ready(Err(checkpoint)) => second_changes(
                    checkpoint,
                    self.b,
                    latest.b,
                    outcome,
                ),
                Poll::Pending => second_changes(
                    self.a.checkpoint(),
                    self.b,
                    latest.b,
                    outcome,
                ),
            }
    }

    fn wait_until_changed(&self, latest: &FusedVersion<A::Checkpoint, B::Checkpoint>) -> (outcome:
        Poll<SymResult<FusedVersion<A::Checkpoint, B::Checkpoint>>>) {
        let mut future = FusedWaitChangedFut::new(
            self.a.save_checkpoint(),
            self.b.save_checkpoint(),
        );
        let poll_a = || -> (polled: Poll<SymResult<A::Checkpoint>>)
            ensures
                self.a.changes(latest.a, polled),
            { self.a.wait_until_changed(&latest.a) };
        let poll_b = || -> (polled: Poll<SymResult<B::Checkpoint>>)
            ensures
                self.b.changes(latest.b, polled),
            { self.b.wait_until_changed(&latest.b) };
        let outcome = future.poll(poll_a, poll_b);
        proof {
            if latest.ended() {
                self.ended_waits_are_over(*latest, outcome);
            }
            if outcome matches Poll::Ready(Ok(_)) {
                self.only_changes_end_waits(*latest, outcome);
            }
        }
        outcome
    }

    proof fn ended_waits_are_over(
        &self,
        latest: FusedVersion<A::Checkpoint, B::Checkpoint>,
        outcome: Poll<SymResult<FusedVersion<A::Checkpoint, B::Checkpoint>>>,
    ) {
        assert forall|polled: Poll<SymResult<A::Checkpoint>>| #[trigger]
            self.a.changes(latest.a, polled) implies (polled matches Poll::Ready(Err(_))) by {
            self.a.ended_waits_are_over(latest.a, polled);
        }
        assert forall|polled: Poll<SymResult<B::Checkpoint>>| #[trigger]
            self.b.changes(latest.b, polled) implies (polled matches Poll::Ready(Err(_))) by {
            self.b.ended_waits_are_over(latest.b, polled);
        }
    }

    proof fn only_changes_end_waits(
        &self,
        latest: FusedVersion<A::Checkpoint, B::Checkpoint>,
        outcome: Poll<SymResult<FusedVersion<A::Checkpoint, B::Checkpoint>>>,
    ) {
        assert forall|polled: Poll<SymResult<A::Checkpoint>>| #[trigger]
            self.a.changes(latest.a, polled) && (polled matches Poll::Ready(Ok(_)))
            implies self.a.outdated(latest.a) by {
            self.a.only_changes_end_waits(latest.a, polled);
        }
        assert forall|polled: Poll<SymResult<B::Checkpoint>>| #[trigger]
            self.b.changes(latest.b, polled) && (polled matches Poll::Ready(Ok(_)))
            implies self.b.outdated(latest.b) by {
            self.b.only_changes_end_waits(latest.b, polled);
        }
    }
}

/// How a wait of two fused observers follows its parts: it comes to a change only where one of
/// them sees one, to an end only where the second sensor is closed, and it does not wait where
/// both sensors are closed or an open one has changed.
pub proof fn fused_wait_follows_its_parts<TA, TB, T, F: FnMut(&TA, &TB) -> T>(
    fused: FusedSensorObserver<SensorObserver<TA>, SensorObserver<TB>, T, F>,
    latest: FusedVersion<Version, Version>,
    outcome: Poll<SymResult<FusedVersion<Version, Version>>>,
)
    requires
        fused.changes(latest, outcome),
    ensures
        outcome matches Poll::Ready(Ok(_)) ==> fused.outdated(latest),
        outcome matches Poll::Ready(Err(_)) ==> latest.b.is_closed(),
        latest.ended() ==> (outcome matches Poll::Ready(Err(_))),
        !latest.a.is_closed() && fused.a.outdated(latest.a) ==> (outcome matches Poll::Ready(
            Ok(_),
        )),
        !latest.b.is_closed() && fused.b.outdated(latest.b) ==> (outcome matches Poll::Ready(
            Ok(_),
        )),
        outcome is Pending ==> !latest.ended(),
{
}

/// What a wait on one sensor comes to: the version as an error where it is closed, the version where
/// it is not the one that the observer has seen, and nothing yet otherwise.
pub proof fn a_wait_compares_versions<T>(
    observer: SensorObserver<T>,
    latest: Version,
    outcome: Poll<SymResult<Version>>,
)
    requires
        observer.changes(latest, outcome),
    ensures
        latest.0 % 2 == 1 ==> outcome == Poll::<SymResult<Version>>::Ready(Err(latest)),
        latest.0 % 2 == 0 && latest != observer.checkpoint() ==> outcome == Poll::<
            SymResult<Version>,
        >::Ready(Ok(latest)),
        latest.0 % 2 == 0 && latest == observer.checkpoint() ==> outcome is Pending,
{
}

/// A wait on a mapped observer comes to what a wait on the inner observer comes to.
pub proof fn a_mapped_wait_is_the_inner_wait<A: SensorObserveAsync, T, F>(
    mapped: MappedSensorObserver<A, T, F>,
    latest: A::Checkpoint,
    outcome: Poll<SymResult<A::Checkpoint>>,
) where F: FnMut(&A::Target) -> T
    ensures
        mapped.changes(latest, outcome) <==> mapped.inner.changes(latest, outcome),
{
}

/// What a wait on a mapped observer of one sensor comes to: the version as an error where it is
/// closed, the version where it is not the one that the observer has seen, and nothing yet
/// otherwise.
pub proof fn a_mapped_wait_compares_versions<TA, T, F: FnMut(&TA) -> T>(
    mapped: MappedSensorObserver<SensorObserver<TA>, T, F>,
    latest: Version,
    outcome: Poll<SymResult<Version>>,
)
    requires
        mapped.changes(latest, outcome),
    ensures
        latest.0 % 2 == 1 ==> outcome == Poll::<SymResult<Version>>::Ready(Err(latest)),
        latest.0 % 2 == 0 && latest != mapped.inner.checkpoint() ==> outcome == Poll::<
            SymResult<Version>,
        >::Ready(Ok(latest)),
        latest.0 % 2 == 0 && latest == mapped.inner.checkpoint() ==> outcome is Pending,
{
}

/// What a wait on two fused observers comes to, where the first comes to `pa` and the second to
/// `pb`: a change of the first with the checkpoint of the second, and otherwise whatever the second
/// comes to with the version at which the first closed, or its checkpoint while it is open.
pub proof fn a_fused_wait_asks_the_first_and_then_the_second<
    A: SensorObserveAsync,
    B: SensorObserveAsync,
    T,
    F,
>(
    fused: FusedSensorObserver<A, B, T, F>,
    latest: FusedVersion<A::Checkpoint, B::Checkpoint>,
    pa: Poll<SymResult<A::Checkpoint>>,
    pb: Poll<SymResult<B::Checkpoint>>,
    outcome: Poll<SymResult<FusedVersion<A::Checkpoint, B::Checkpoint>>>,
) where F: FnMut(&A::Target, &B::Target) -> T
    requires
        fused.changes(latest, outcome),
        forall|polled: Poll<SymResult<A::Checkpoint>>| #[trigger]
            fused.a.changes(latest.a, polled) ==> polled == pa,
        forall|polled: Poll<SymResult<B::Checkpoint>>| #[trigger]
            fused.b.changes(latest.b, polled) ==> polled == pb,
    ensures
        pa matches Poll::Ready(Ok(a)) ==> (outcome matches Poll::Ready(Ok(version)) && version.a
            == a && cloned(fused.b.checkpoint(), version.b)),
        pa is Pending && pb is Pending ==> outcome is Pending,
        pa is Pending ==> (pb matches Poll::Ready(Ok(b)) ==> (outcome matches Poll::Ready(
            Ok(version),
        ) && version.b == b && cloned(fused.a.checkpoint(), version.a))),
        pa is Pending ==> (pb matches Poll::Ready(Err(b)) ==> (outcome matches Poll::Ready(
            Err(version),
        ) && version.b == b && cloned(fused.a.checkpoint(), version.a))),
        (pa matches Poll::Ready(Err(_))) && pb is Pending ==> outcome is Pending,
        pa matches Poll::Ready(Err(a)) ==> (pb matches Poll::Ready(Ok(b)) ==> (
        outcome matches Poll::Ready(Ok(version)) && version.b == b && cloned(a, version.a))),
        pa matches Poll::Ready(Err(a)) ==> (pb matches Poll::Ready(Err(b)) ==> (
        outcome matches Poll::Ready(Err(version)) && version.b == b && cloned(a, version.a))),
{
}

/// What the second of two waits that are run as one brings: whatever it comes to, with the
/// checkpoint of the first.
pub proof fn the_second_wait_decides<
    CA: VersionFunctionality + Clone,
    CB: VersionFunctionality + Clone,
    PB: FnOnce() -> Poll<SymResult<CB>>,
>(ca: CA, poll_b: PB, pb: Poll<SymResult<CB>>, result: Poll<SymResult<FusedVersion<CA, CB>>>)
    requires
        second_decides(ca, poll_b, result),
        forall|polled: Poll<SymResult<CB>>| #[trigger]
            call_ensures(poll_b, (), polled) ==> polled == pb,
    ensures
        pb is Pending <==> result is Pending,
        pb matches Poll::Ready(Ok(b)) ==> (result matches Poll::Ready(Ok(version)) && version.b == b
            && cloned(ca, version.a)),
        pb matches Poll::Ready(Err(b)) ==> (result matches Poll::Ready(Err(version)) && version.b
            == b && cloned(ca, version.a)),
{
}

/// What a wait on two fused observers of one sensor each comes to.
pub proof fn a_fused_wait_compares_versions<TA, TB, T, F: FnMut(&TA, &TB) -> T>(
    fused: FusedSensorObserver<SensorObserver<TA>, SensorObserver<TB>, T, F>,
    latest: FusedVersion<Version, Version>,
    outcome: Poll<SymResult<FusedVersion<Version, Version>>>,
)
    requires
        fused.changes(latest, outcome),
    ensures
        ({
            let a_closed = latest.a.0 % 2 == 1;
            let b_closed = latest.b.0 % 2 == 1;
            let seen_a = fused.a.checkpoint();
            let seen_b = fused.b.checkpoint();
            &&& !a_closed && latest.a != seen_a ==> (outcome matches Poll::Ready(Ok(version))
                && version.a == latest.a && version.b == seen_b)
            &&& (a_closed || latest.a == seen_a) && b_closed ==> (outcome matches Poll::Ready(
                Err(version),
            ) && version.b == latest.b && version.a == (if a_closed {
                latest.a
            } else {
                seen_a
            }))
            &&& (a_closed || latest.a == seen_a) && !b_closed && latest.b != seen_b ==> (
            outcome matches Poll::Ready(Ok(version)) && version.b == latest.b && version.a == (
            if a_closed {
                latest.a
            } else {
                seen_a
            }))
            &&& (a_closed || latest.a == seen_a) && !b_closed && latest.b == seen_b
                ==> outcome is Pending
        }),
{
}

/// What a wait for a condition has to do next.
#[derive(Clone, Copy, PartialEq, Eq, Structural, Debug)]
pub enum WaitStep {
    /// Read the values and check the condition.
    Check,
    /// Wait until a value is updated.
    WaitChanged,
}

/// A wait until a condition holds of two fused values.
pub struct FusedWait<CA: VersionFunctionality + Clone, CB: VersionFunctionality + Clone> {
    /// The checkpoint that the observer gets back when the wait ends, however it ends.
    pub restore_checkpoint: FusedVersion<CA, CB>,
    /// What has to be done next.
    pub next: WaitStep,
}

impl<
    A: SensorObserve,
    B: SensorObserve,
    T,
    F: FnMut(&A::Target, &B::Target) -> T,
> FusedSensorObserver<A, B, T, F> {
    /// The fused form of two values that the observers have read.
    pub fn read(&mut self, a: &A::Target, b: &B::Target) -> (fused: OwnedData<T>)
        requires
            call_requires(old(self).fuse, (a, b)),
        ensures
            call_ensures(old(self).fuse, (a, b), fused.0),
            *final(self) == *old(self),
    {
        let fuse = &mut self.fuse;
        OwnedData(fuse(a, b))
    }

    /// Starts a wait for a condition. Only with `check_current` are the current values checked;
    /// otherwise an update has to come first.
    pub fn wait_for_inner(&self, check_current: bool) -> (wait: FusedWait<
        A::Checkpoint,
        B::Checkpoint,
    >)
        ensures
            wait.restore_checkpoint == self.checkpoint(),
            wait.next == if check_current {
                WaitStep::Check
            } else {
                WaitStep::WaitChanged
            },
    {
        FusedWait {
            restore_checkpoint: self.save_checkpoint(),
            next: if check_current {
                WaitStep::Check
            } else {
                WaitStep::WaitChanged
            },
        }
    }

    /// Starts a wait for a condition that checks the current values first.
    pub fn wait_for(&self) -> (wait: FusedWait<A::Checkpoint, B::Checkpoint>)
        ensures
            wait.restore_checkpoint == self.checkpoint(),
            wait.next == WaitStep::Check,
    {
        self.wait_for_inner(true)
    }

    /// Starts a wait for a condition that waits for an update first.
    pub fn wait_for_next(&self) -> (wait: FusedWait<A::Checkpoint, B::Checkpoint>)
        ensures
            wait.restore_checkpoint == self.checkpoint(),
            wait.next == WaitStep::WaitChanged,
    {
        self.wait_for_inner(false)
    }
}

impl<CA: VersionFunctionality + Clone, CB: VersionFunctionality + Clone> FusedWait<CA, CB> {
    /// Goes on after an update, or after the sensors have closed.
    pub fn changed(&mut self)
        ensures
            *final(self) == (FusedWait { next: WaitStep::Check, ..*old(self) }),
    {
        self.next = WaitStep::Check;
    }

    /// Checks the condition on the fused form of two values. Where it holds, the wait has come to
    /// the fused value; otherwise an update has to come first.
    pub fn check<
        A: SensorObserve<Checkpoint = CA>,
        B: SensorObserve<Checkpoint = CB>,
        T,
        F: FnMut(&A::Target, &B::Target) -> T,
        C: FnMut(&T) -> bool,
    >(
        &mut self,
        observer: &mut FusedSensorObserver<A, B, T, F>,
        a: &A::Target,
        b: &B::Target,
        condition: &mut C,
    ) -> (result: Option<OwnedData<T>>)
        requires
            call_requires(old(observer).fuse, (a, b)),
            forall|t: T|
                call_ensures(old(observer).fuse, (a, b), t) ==> #[trigger] call_requires(
                    *old(condition),
                    (&t,),
                ),
        ensures
            *final(condition) == *old(condition),
            exists|t: T, holds: bool|
                #![trigger call_ensures(*old(condition), (&t,), holds)]
                call_ensures(old(observer).fuse, (a, b), t) && call_ensures(
                    *old(condition),
                    (&t,),
                    holds,
                ) && if holds {
                    &&& result matches Some(fused) && fused.0 == t
                    &&& *final(observer) == *old(observer)
                    &&& final(self).restore_checkpoint == old(observer).checkpoint()
                    &&& final(self).next == old(self).next
                } else {
                    &&& result is None
                    &&& final(observer).checkpoint() == old(observer).checkpoint()
                    &&& final(observer).same_source(old(observer))
                    &&& final(self).restore_checkpoint == old(self).restore_checkpoint
                    &&& final(self).next == WaitStep::WaitChanged
                },
    {
        let fused_checkpoint = observer.save_checkpoint();
        let fused = observer.read(a, b);
        let holds = condition(&fused.0);
        assert(call_ensures(*old(condition), (&fused.0,), holds));
        if holds {
            self.restore_checkpoint = fused_checkpoint;
            return Some(fused);
        }
        observer.restore_checkpoint(&fused_checkpoint);
        self.next = WaitStep::WaitChanged;
        None
    }

    /// Ends the wait, whether it has come to a value or is given up.
    pub fn end<
        A: SensorObserve<Checkpoint = CA>,
        B: SensorObserve<Checkpoint = CB>,
        T,
        F: FnMut(&A::Target, &B::Target) -> T,
    >(self, observer: &mut FusedSensorObserver<A, B, T, F>)
        ensures
            final(observer).checkpoint() == self.restore_checkpoint,
            final(observer).same_source(old(observer)),
    {
        observer.restore_checkpoint(&self.restore_checkpoint);
    }
}

/// A value together with what is done to it when it goes.
pub struct DropFn<T, F: FnOnce(&mut T)> {
    /// The value.
    pub v: T,
    /// What is done to it.
    pub f: F,
}

impl<T, F: FnOnce(&mut T)> DropFn<T, F> {
    /// Ties `drop_fn` to `value`.
    pub fn new(value: T, drop_fn: F) -> (guarded: Self)
        ensures
            guarded.v == value,
            guarded.f == drop_fn,
    {
        DropFn { v: value, f: drop_fn }
    }

    /// The value.
    pub fn deref(&self) -> (value: &T)
        ensures
            *value == self.v,
    {
        &self.v
    }

    /// The value.
    pub fn deref_mut(&mut self) -> (value: &mut T)
        ensures
            *value == old(self).v,
            *final(self) == (DropFn { v: *final(value), f: old(self).f }),
    {
        &mut self.v
    }

    /// Does to the value what is to be done when it goes, and lets it go.
    pub fn drop(self) -> (value: T)
        requires
            forall|m: &mut T| *m == self.v ==> #[trigger] call_requires(self.f, (m,)),
        ensures
            exists|m: &mut T| #[trigger]
                call_ensures(self.f, (m,), ()) && *m == self.v && *final(m) == value,
    {
        let DropFn { v, f } = self;
        let mut value = v;
        let m = &mut value;
        f(m);
        value
    }
}

/// A step of a wait on any observer is over where the sensor is closed, with an error, and brings a
/// change only where there is one.
pub proof fn no_wait_outlasts_its_sensor<O: SensorObserveAsync>(
    observer: &O,
    latest: &O::Checkpoint,
    outcome: Poll<SymResult<O::Checkpoint>>,
)
    requires
        call_ensures(O::wait_until_changed, (observer, latest), outcome),
    ensures
        latest.ended() ==> (outcome matches Poll::Ready(Err(_))),
        outcome is Pending ==> !latest.ended(),
        outcome matches Poll::Ready(Ok(_)) ==> observer.outdated(*latest),
{
    if latest.ended() {
        observer.ended_waits_are_over(*latest, outcome);
    }
    if outcome matches Poll::Ready(Ok(_)) {
        observer.only_changes_end_waits(*latest, outcome);
    }
}

/// A step of a wait on an observer of one sensor, mapped or not, comes to the version as an error
/// where the sensor is closed, to the version where it is not the one that the observer has seen,
/// and to nothing yet otherwise.
pub proof fn steps_of_waits_compare_versions<TA, T, F: FnMut(&TA) -> T>(
    observer: &SensorObserver<TA>,
    mapped: &MappedSensorObserver<SensorObserver<TA>, T, F>,
    latest: &Version,
    outcome: Poll<SymResult<Version>>,
)
    ensures
        call_ensures(SensorObserver::<TA>::wait_until_changed, (observer, latest), outcome)
            ==> outcome == (if latest.0 % 2 == 1 {
            Poll::Ready(Err(*latest))
        } else if *latest != observer.checkpoint() {
            Poll::Ready(Ok(*latest))
        } else {
            Poll::Pending
        }),
        call_ensures(
            MappedSensorObserver::<SensorObserver<TA>, T, F>::wait_until_changed,
            (mapped, latest),
            outcome,
        ) ==> outcome == (if latest.0 % 2 == 1 {
            Poll::Ready(Err(*latest))
        } else if *latest != mapped.inner.checkpoint() {
            Poll::Ready(Ok(*latest))
        } else {
            Poll::Pending
        }),
{
    if call_ensures(SensorObserver::<TA>::wait_until_changed, (observer, latest), outcome) {
        lemma_steps_come_to_changes(observer, latest, outcome);
    }
    if call_ensures(
        MappedSensorObserver::<SensorObserver<TA>, T, F>::wait_until_changed,
        (mapped, latest),
        outcome,
    ) {
        lemma_steps_come_to_changes(mapped, latest, outcome);
    }
}

proof fn lemma_steps_come_to_changes<O: SensorObserveAsync>(
    observer: &O,
    latest: &O::Checkpoint,
    outcome: Poll<SymResult<O::Checkpoint>>,
)
    requires
        call_ensures(O::wait_until_changed, (observer, latest), outcome),
    ensures
        observer.changes(*latest, outcome),
{
}

/// A step of a fused wait, where its parts come to `pa` and `pb`, comes to a change of the first
/// with the checkpoint of the second, and otherwise to whatever the second comes to. The first is
/// asked until it is closed, and from then on the version at which it closed stands for it.
pub proof fn steps_of_fused_waits_follow_their_parts<
    CA: VersionFunctionality + Clone,
    CB: VersionFunctionality + Clone,
    PA: FnOnce() -> Poll<SymResult<CA>>,
    PB: FnOnce() -> Poll<SymResult<CB>>,
>(
    poll_a: PA,
    poll_b: PB,
    pa: Poll<SymResult<CA>>,
    pb: Poll<SymResult<CB>>,
    result: Poll<SymResult<FusedVersion<CA, CB>>>,
)
    requires
        forall|polled: Poll<SymResult<CA>>| #[trigger]
            call_ensures(poll_a, (), polled) ==> polled == pa,
        forall|polled: Poll<SymResult<CB>>| #[trigger]
            call_ensures(poll_b, (), polled) ==> polled == pb,
    ensures
        forall|future: &mut FusedWaitChangedFut<CA, CB>|
            #[trigger] call_ensures(
                FusedWaitChangedFut::<CA, CB>::poll::<PA, PB>,
                (future, poll_a, poll_b),
                result,
            ) ==> {
                let asked = (*future).a;
                let known = match pa {
                    Poll::Ready(Err(a)) if asked => a,
                    _ => (*future).ca,
                };
                &&& (*final(future)).a == (asked && !(pa matches Poll::Ready(Err(_))))
                &&& (*final(future)).ca == known
                &&& (*final(future)).cb == (*future).cb
                &&& asked ==> (pa matches Poll::Ready(Ok(a)) ==> (result matches Poll::Ready(
                    Ok(version),
                ) && version.a == a && cloned((*future).cb, version.b)))
                &&& !asked || !(pa matches Poll::Ready(Ok(_))) ==> match pb {
                    Poll::Pending => result is Pending,
                    Poll::Ready(Ok(b)) => result matches Poll::Ready(Ok(version)) && version.b == b
                        && cloned(known, version.a),
                    Poll::Ready(Err(b)) => result matches Poll::Ready(Err(version)) && version.b
                        == b && cloned(known, version.a),
                }
            },
{
}

} // verus!
