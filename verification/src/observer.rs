//! Sensor observers.
//!
//! An observer keeps the version that it has seen. Its core is shared and tells its current
//! version when asked, so every operation takes the latest version as an argument.

use vstd::prelude::*;

use std::marker::PhantomData;
use std::ops::Deref;

use crate::version::{FusedVersion, Version, VersionFunctionality};

verus! {

/// Data that an observer owns.
pub struct OwnedData<T>(pub T);

impl<T: Clone> Clone for OwnedData<T> {
    fn clone(&self) -> (data: Self)
        ensures
            cloned(self.0, data.0),
    {
        OwnedData(self.0.clone())
    }
}

impl<T: Copy> Copy for OwnedData<T> {

}

impl<T> OwnedData<T> {
    /// The data.
    pub fn into_inner(self) -> (data: T)
        ensures
            data == self.0,
    {
        self.0
    }
}

impl<T> OwnedData<T> {
    /// The data.
    pub fn deref_mut(&mut self) -> (data: &mut T)
        ensures
            *data == old(self).0,
            final(self).0 == *final(data),
    {
        &mut self.0
    }
}

impl<T> Deref for OwnedData<T> {
    type Target = T;

    fn deref(&self) -> (data: &T)
        ensures
            *data == self.0,
    {
        &self.0
    }
}

impl<T> From<T> for OwnedData<T> {
    fn from(value: T) -> (data: Self) {
        OwnedData(value)
    }
}

impl<T> vstd::std_specs::convert::FromSpecImpl<T> for OwnedData<T> {
    open spec fn obeys_from_spec() -> bool {
        true
    }

    open spec fn from_spec(value: T) -> Self {
        OwnedData(value)
    }
}

/// General observer functionality.
pub trait SensorObserve: Sized {
    /// What is observed.
    type Target;

    /// The version of a sensor as this observer sees it.
    type Checkpoint: VersionFunctionality + Clone;

    /// The version that counts as seen.
    spec fn checkpoint(&self) -> Self::Checkpoint;

    /// The checkpoint from which `latest` is one update away.
    spec fn before(latest: Self::Checkpoint) -> Self::Checkpoint;

    /// Whether `latest` counts as unseen.
    spec fn outdated(&self, latest: Self::Checkpoint) -> bool;

    /// Whether two observers differ in nothing but their checkpoint.
    spec fn same_source(&self, other: &Self) -> bool;

    /// Saves the current version checkpoint of the observer, and allows the observer to revert to
    /// this checkpoint in the future using [`SensorObserve::restore_checkpoint`].
    fn save_checkpoint(&self) -> (checkpoint: Self::Checkpoint)
        ensures
            checkpoint == self.checkpoint(),
    ;

    /// Restores the version checkpoint of the observer. Note that this does **not** restore the
    /// data of the sensor from when the checkpoint was saved, only what version the observer
    /// perceives as the most recent data version of the sensor.
    fn restore_checkpoint(&mut self, checkpoint: &Self::Checkpoint)
        ensures
            final(self).checkpoint() == *checkpoint,
            final(self).same_source(old(self)),
    ;

    /// Mark the current sensor data as seen.
    fn mark_seen(&mut self, latest: &Self::Checkpoint)
        ensures
            final(self).checkpoint() == *latest,
            final(self).same_source(old(self)),
    ;

    /// Mark the current sensor data as unseen.
    fn mark_unseen(&mut self, latest: &Self::Checkpoint)
        ensures
            final(self).checkpoint() == Self::before(*latest),
            final(self).same_source(old(self)),
    ;

    /// Returns true if the sensor data has been marked as unseen.
    fn has_changed(&self, latest: &Self::Checkpoint) -> (changed: bool)
        ensures
            changed == self.outdated(*latest),
    ;

    /// Returns true if all upstream writers have been dropped and no more updates can occur.
    fn is_closed(&self, latest: &Self::Checkpoint) -> (closed: bool)
        ensures
            closed == latest.ended(),
    ;

    /// Data whose version is marked as seen counts as seen.
    proof fn seen_is_unchanged(&self)
        ensures
            !self.outdated(self.checkpoint()),
    ;

    /// Data that is marked as unseen counts as unseen.
    proof fn unseen_is_changed(&self, latest: Self::Checkpoint)
        requires
            self.checkpoint() == Self::before(latest),
        ensures
            self.outdated(latest),
    ;

    /// An observer that has a checkpoint of another restored sees changes as the other did.
    proof fn checkpoint_decides(&self, other: &Self, latest: Self::Checkpoint)
        requires
            self.checkpoint() == other.checkpoint(),
        ensures
            self.outdated(latest) == other.outdated(latest),
    ;
}

/// Observers that are made of other observers.
pub trait SensorCombine: SensorObserve {
    /// Fuse this observer with another using the given fusion function into a cacheless observer.
    fn fuse<B, T, F>(self, other: B, f: F) -> (fused: FusedSensorObserver<Self, B, T, F>) where
        B: SensorObserve,
        F: FnMut(&Self::Target, &B::Target) -> T,

        ensures
            fused.a == self,
            fused.b == other,
            fused.fuse == f,
    {
        FusedSensorObserver::fuse_with(self, other, f)
    }

    /// Map this observer into another using the given mapping function into a cacheless observer.
    fn map<T, F>(self, f: F) -> (mapped: MappedSensorObserver<Self, T, F>) where
        F: FnMut(&Self::Target) -> T,

        ensures
            mapped.inner == self,
            mapped.map == f,
    {
        MappedSensorObserver::map_with(self, f)
    }
}

impl<A: SensorObserve> SensorCombine for A {

}

/// The generalized sensor observer.
pub struct SensorObserver<T> {
    version: Version,
    _target: PhantomData<T>,
}

impl<T> Clone for SensorObserver<T> {
    fn clone(&self) -> (observer: Self)
        ensures
            observer.version() == self.version(),
    {
        SensorObserver { version: self.version, _target: PhantomData }
    }
}

impl<T> Copy for SensorObserver<T> {

}

impl<T> SensorObserver<T> {
    /// The version that counts as seen.
    pub closed spec fn version(&self) -> Version {
        self.version
    }

    /// An observer that has seen `version`.
    pub fn new(version: Version) -> (observer: Self)
        ensures
            observer.checkpoint() == version,
    {
        SensorObserver { version, _target: PhantomData }
    }
}

impl<T> SensorObserve for SensorObserver<T> {
    type Target = T;

    type Checkpoint = Version;

    open spec fn checkpoint(&self) -> Version {
        self.version()
    }

    open spec fn before(latest: Version) -> Version {
        latest.previous()
    }

    open spec fn outdated(&self, latest: Version) -> bool {
        latest != self.version()
    }

    open spec fn same_source(&self, other: &Self) -> bool {
        true
    }

    fn save_checkpoint(&self) -> (checkpoint: Version) {
        self.version
    }

    fn restore_checkpoint(&mut self, checkpoint: &Version) {
        self.version = *checkpoint;
    }

    fn mark_seen(&mut self, latest: &Version) {
        self.version = *latest;
    }

    fn mark_unseen(&mut self, latest: &Version) {
        self.version = *latest;
        self.version.decrement();
    }

    fn has_changed(&self, latest: &Version) -> (changed: bool) {
        *latest != self.version
    }

    fn is_closed(&self, latest: &Version) -> (closed: bool) {
        latest.closed()
    }

    proof fn seen_is_unchanged(&self) {
    }

    proof fn unseen_is_changed(&self, latest: Version) {
    }

    proof fn checkpoint_decides(&self, other: &Self, latest: Version) {
    }
}

/// A mapped sensor observer.
#[verifier::reject_recursive_types(A)]
#[verifier::reject_recursive_types(T)]
#[verifier::reject_recursive_types(F)]
pub struct MappedSensorObserver<A: SensorObserve, T, F: FnMut(&A::Target) -> T> {
    /// The original pre-mapped observer.
    pub inner: A,
    /// The mapping function.
    pub map: F,
    /// What the mapping function returns.
    pub target: PhantomData<T>,
}

impl<A: SensorObserve, T, F: FnMut(&A::Target) -> T> MappedSensorObserver<A, T, F> {
    /// Create a new mapped observer given another observer and an appropriate mapping function.
    pub fn map_with(a: A, f: F) -> (mapped: Self)
        ensures
            mapped.inner == a,
            mapped.map == f,
    {
        MappedSensorObserver { inner: a, map: f, target: PhantomData }
    }
}

impl<A: SensorObserve, T, F: FnMut(&A::Target) -> T> SensorObserve for MappedSensorObserver<
    A,
    T,
    F,
> {
    type Target = T;

    type Checkpoint = A::Checkpoint;

    open spec fn checkpoint(&self) -> A::Checkpoint {
        self.inner.checkpoint()
    }

    open spec fn before(latest: A::Checkpoint) -> A::Checkpoint {
        A::before(latest)
    }

    open spec fn outdated(&self, latest: A::Checkpoint) -> bool {
        self.inner.outdated(latest)
    }

    open spec fn same_source(&self, other: &Self) -> bool {
        self.inner.same_source(&other.inner) && self.map == other.map
    }

    fn save_checkpoint(&self) -> (checkpoint: A::Checkpoint) {
        self.inner.save_checkpoint()
    }

    fn restore_checkpoint(&mut self, checkpoint: &A::Checkpoint) {
        self.inner.restore_checkpoint(checkpoint);
    }

    fn mark_seen(&mut self, latest: &A::Checkpoint) {
        self.inner.mark_seen(latest);
    }

    fn mark_unseen(&mut self, latest: &A::Checkpoint) {
        self.inner.mark_unseen(latest);
    }

    fn has_changed(&self, latest: &A::Checkpoint) -> (changed: bool) {
        self.inner.has_changed(latest)
    }

    fn is_closed(&self, latest: &A::Checkpoint) -> (closed: bool) {
        self.inner.is_closed(latest)
    }

    proof fn seen_is_unchanged(&self) {
        self.inner.seen_is_unchanged();
    }

    proof fn unseen_is_changed(&self, latest: A::Checkpoint) {
        self.inner.unseen_is_changed(latest);
    }

    proof fn checkpoint_decides(&self, other: &Self, latest: A::Checkpoint) {
        self.inner.checkpoint_decides(&other.inner, latest);
    }
}

/// A fused sensor observer.
#[verifier::reject_recursive_types(A)]
#[verifier::reject_recursive_types(B)]
#[verifier::reject_recursive_types(T)]
#[verifier::reject_recursive_types(F)]
pub struct FusedSensorObserver<
    A: SensorObserve,
    B: SensorObserve,
    T,
    F: FnMut(&A::Target, &B::Target) -> T,
> {
    /// The first original pre-mapped observer.
    pub a: A,
    /// The second original pre-mapped observer.
    pub b: B,
    /// The fusing function.
    pub fuse: F,
    /// What the fusing function returns.
    pub target: PhantomData<T>,
}

impl<
    A: SensorObserve,
    B: SensorObserve,
    T,
    F: FnMut(&A::Target, &B::Target) -> T,
> FusedSensorObserver<A, B, T, F> {
    /// Create a new cacheless fused observer given two other independent observers and an
    /// appropriate fusing function.
    pub fn fuse_with(a: A, b: B, f: F) -> (fused: Self)
        ensures
            fused.a == a,
            fused.b == b,
            fused.fuse == f,
    {
        FusedSensorObserver { a, b, fuse: f, target: PhantomData }
    }
}

impl<
    A: SensorObserve,
    B: SensorObserve,
    T,
    F: FnMut(&A::Target, &B::Target) -> T,
> SensorObserve for FusedSensorObserver<A, B, T, F> {
    type Target = T;

    type Checkpoint = FusedVersion<A::Checkpoint, B::Checkpoint>;

    open spec fn checkpoint(&self) -> FusedVersion<A::Checkpoint, B::Checkpoint> {
        FusedVersion { a: self.a.checkpoint(), b: self.b.checkpoint() }
    }

    open spec fn before(latest: FusedVersion<A::Checkpoint, B::Checkpoint>) -> FusedVersion<
        A::Checkpoint,
        B::Checkpoint,
    > {
        FusedVersion { a: A::before(latest.a), b: B::before(latest.b) }
    }

    open spec fn outdated(&self, latest: FusedVersion<A::Checkpoint, B::Checkpoint>) -> bool {
        self.a.outdated(latest.a) || self.b.outdated(latest.b)
    }

    open spec fn same_source(&self, other: &Self) -> bool {
        &&& self.a.same_source(&other.a)
        &&& self.b.same_source(&other.b)
        &&& self.fuse == other.fuse
    }

    fn save_checkpoint(&self) -> (checkpoint: FusedVersion<A::Checkpoint, B::Checkpoint>) {
        FusedVersion { a: self.a.save_checkpoint(), b: self.b.save_checkpoint() }
    }

    fn restore_checkpoint(&mut self, checkpoint: &FusedVersion<A::Checkpoint, B::Checkpoint>) {
        self.a.restore_checkpoint(&checkpoint.a);
        self.b.restore_checkpoint(&checkpoint.b);
    }

    fn mark_seen(&mut self, latest: &FusedVersion<A::Checkpoint, B::Checkpoint>) {
        self.a.mark_seen(&latest.a);
        self.b.mark_seen(&latest.b);
    }

    fn mark_unseen(&mut self, latest: &FusedVersion<A::Checkpoint, B::Checkpoint>) {
        self.a.mark_unseen(&latest.a);
        self.b.mark_unseen(&latest.b);
    }

    fn has_changed(&self, latest: &FusedVersion<A::Checkpoint, B::Checkpoint>) -> (changed: bool) {
        self.a.has_changed(&latest.a) || self.b.has_changed(&latest.b)
    }

    fn is_closed(&self, latest: &FusedVersion<A::Checkpoint, B::Checkpoint>) -> (closed: bool) {
        self.a.is_closed(&latest.a) && self.b.is_closed(&latest.b)
    }

    proof fn seen_is_unchanged(&self) {
        self.a.seen_is_unchanged();
        self.b.seen_is_unchanged();
    }

    proof fn unseen_is_changed(&self, latest: FusedVersion<A::Checkpoint, B::Checkpoint>) {
        self.a.unseen_is_changed(latest.a);
    }

    proof fn checkpoint_decides(
        &self,
        other: &Self,
        latest: FusedVersion<A::Checkpoint, B::Checkpoint>,
    ) {
        self.a.checkpoint_decides(&other.a, latest.a);
        self.b.checkpoint_decides(&other.b, latest.b);
    }
}

/// An observer that has seen the current version sees every number of later updates as a change,
/// as long as the version counter has not come round.
pub proof fn updates_are_observed<T>(observer: SensorObserver<T>, count: nat)
    requires
        0 < count,
        2 * count < crate::version::version_modulus(),
    ensures
        observer.outdated(observer.checkpoint().after_updates(count)),
{
    crate::version::missed_updates_are_visible(observer.checkpoint(), count);
}

/// An observer that has seen the last version of an open sensor sees its closing as a change, and
/// sees the sensor closed from then on.
pub proof fn closing_is_observed<T>(observer: SensorObserver<T>, count: nat)
    requires
        !observer.checkpoint().is_closed(),
    ensures
        observer.outdated(observer.checkpoint().closing()),
        observer.checkpoint().closing().after_updates(count).ended(),
{
    crate::version::updates_keep_closed_bit(observer.checkpoint().closing(), count);
}

/// Fused observers see a change as soon as one of them does, and an end once both do.
pub proof fn fusion_joins<A: SensorObserve, B: SensorObserve, T, F>(
    fused: FusedSensorObserver<A, B, T, F>,
    latest: FusedVersion<A::Checkpoint, B::Checkpoint>,
) where F: FnMut(&A::Target, &B::Target) -> T
    ensures
        fused.outdated(latest) == (fused.a.outdated(latest.a) || fused.b.outdated(latest.b)),
        latest.ended() == (latest.a.ended() && latest.b.ended()),
{
}

/// An observer of one sensor sees a change exactly where the version is not the one that it has
/// seen; marking the value as unseen puts it one update back, whatever it had seen.
pub proof fn an_observer_compares_versions<T>(observer: SensorObserver<T>, latest: Version)
    ensures
        observer.checkpoint() == observer.version(),
        observer.outdated(latest) <==> latest.0 != observer.version().0,
        SensorObserver::<T>::before(latest).0 as int == (latest.0 - 2) % (usize::MAX + 1),
{
    crate::version::versions_count_in_twos(latest);
}

/// A mapped observer has seen what the inner observer has seen, and sees changes where it does.
pub proof fn mapping_observes_the_inner_sensor<A: SensorObserve, T, F>(
    mapped: MappedSensorObserver<A, T, F>,
    other: MappedSensorObserver<A, T, F>,
    latest: A::Checkpoint,
) where F: FnMut(&A::Target) -> T
    ensures
        mapped.checkpoint() == mapped.inner.checkpoint(),
        mapped.outdated(latest) == mapped.inner.outdated(latest),
        MappedSensorObserver::<A, T, F>::before(latest) == A::before(latest),
        mapped.same_source(&other) <==> mapped.inner.same_source(&other.inner) && mapped.map
            == other.map,
{
}

/// Fused observers keep a checkpoint for each of them, and each is put back by one update when the
/// values are marked as unseen.
pub proof fn fusion_keeps_both_checkpoints<A: SensorObserve, B: SensorObserve, T, F>(
    fused: FusedSensorObserver<A, B, T, F>,
    other: FusedSensorObserver<A, B, T, F>,
    latest: FusedVersion<A::Checkpoint, B::Checkpoint>,
) where F: FnMut(&A::Target, &B::Target) -> T
    ensures
        fused.checkpoint().a == fused.a.checkpoint(),
        fused.checkpoint().b == fused.b.checkpoint(),
        FusedSensorObserver::<A, B, T, F>::before(latest).a == A::before(latest.a),
        FusedSensorObserver::<A, B, T, F>::before(latest).b == B::before(latest.b),
        fused.same_source(&other) <==> fused.a.same_source(&other.a) && fused.b.same_source(
            &other.b,
        ) && fused.fuse == other.fuse,
{
}

/// Once the values are marked as unseen, each of two fused observers sees a change on its own.
pub proof fn both_parts_are_marked_unseen<A: SensorObserve, B: SensorObserve, T, F>(
    fused: FusedSensorObserver<A, B, T, F>,
    latest: FusedVersion<A::Checkpoint, B::Checkpoint>,
) where F: FnMut(&A::Target, &B::Target) -> T
    requires
        fused.checkpoint() == FusedSensorObserver::<A, B, T, F>::before(latest),
    ensures
        fused.a.outdated(latest.a),
        fused.b.outdated(latest.b),
{
    fused.a.unseen_is_changed(latest.a);
    fused.b.unseen_is_changed(latest.b);
}

/// Data becomes owned data as it is.
pub proof fn owned_data_is_the_data<T>(value: T)
    ensures
        <OwnedData<T> as vstd::std_specs::convert::FromSpec<T>>::from_spec(value).0 == value,
{
}

/// An observer that has marked the current value as seen sees no change at it, one that has marked
/// it as unseen sees one, and one that has got a checkpoint back holds it, whatever it held before.
pub proof fn marks_are_kept<O: SensorObserve>(latest: &O::Checkpoint)
    ensures
        forall|observer: &mut O|
            #[trigger] call_ensures(O::mark_seen, (observer, latest), ()) ==> (*final(observer)).checkpoint() == *latest && !(*final(observer)).outdated(*latest),
        forall|observer: &mut O|
            #[trigger] call_ensures(O::mark_unseen, (observer, latest), ()) ==> (*final(observer)).outdated(*latest),
        forall|observer: &mut O|
            #[trigger] call_ensures(O::restore_checkpoint, (observer, latest), ()) ==> (*final(observer)).checkpoint() == *latest,
        forall|observer: &O, saved: O::Checkpoint|
            #[trigger] call_ensures(O::save_checkpoint, (observer,), saved) ==> saved
                == observer.checkpoint(),
        forall|observer: &O, changed: bool|
            #[trigger] call_ensures(O::has_changed, (observer, latest), changed) ==> changed
                == observer.outdated(*latest),
        forall|observer: &O, closed: bool|
            #[trigger] call_ensures(O::is_closed, (observer, latest), closed) ==> closed
                == latest.ended(),
{
    assert forall|observer: &mut O|
        #[trigger] call_ensures(O::mark_seen, (observer, latest), ()) implies (*final(observer)).checkpoint() == *latest && !(*final(observer)).outdated(*latest) by {
        (*final(observer)).seen_is_unchanged();
    }
    assert forall|observer: &mut O|
        #[trigger] call_ensures(O::mark_unseen, (observer, latest), ()) implies (*final(observer)).outdated(*latest) by {
        (*final(observer)).unseen_is_changed(*latest);
    }
}

} // verus!
