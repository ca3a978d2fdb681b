use sensor_fuse::observer::{
    FusedSensorObserver, MappedSensorObserver, OwnedData, SensorCombine, SensorObserve,
    SensorObserver,
};
use sensor_fuse::version::{FusedVersion, Version};
use sensor_fuse::waiting::DropFn;

fn observer(version: usize) -> SensorObserver<i32> {
    SensorObserver::new(Version(version))
}

fn check<F: FnMut(&i32) -> i32, C: FnMut(&i32) -> bool>(
    mapped: &mut MappedSensorObserver<SensorObserver<i32>, i32, F>,
    value: &i32,
    condition: &mut C,
    kept: &mut Option<OwnedData<i32>>,
) -> bool {
    MappedSensorObserver::<SensorObserver<i32>, i32, F>::check(
        &mut mapped.map,
        value,
        condition,
        kept,
    )
}

#[test]
fn marking_seen_and_unseen() {
    let mut observer = observer(2);
    assert!(!observer.has_changed(&Version(2)));
    assert!(observer.has_changed(&Version(4)));
    observer.mark_seen(&Version(4));
    assert!(!observer.has_changed(&Version(4)));
    observer.mark_unseen(&Version(4));
    assert_eq!(observer.save_checkpoint(), Version(2));
    assert!(observer.has_changed(&Version(4)));
    observer.mark_unseen(&Version(0));
    assert_eq!(observer.save_checkpoint(), Version(usize::MAX - 1));
}

#[test]
fn observers_can_be_copied() {
    let first = observer(2);
    let mut second = first;
    second.mark_seen(&Version(4));
    assert_eq!(first.clone().save_checkpoint(), Version(2));
    assert_eq!(second.save_checkpoint(), Version(4));
}

#[test]
fn checkpoints_are_restored() {
    let mut observer = observer(2);
    let checkpoint = observer.save_checkpoint();
    observer.mark_seen(&Version(8));
    assert!(!observer.has_changed(&Version(8)));
    observer.restore_checkpoint(&checkpoint);
    assert!(observer.has_changed(&Version(8)));
    assert!(!observer.has_changed(&Version(2)));
}

#[test]
fn closing_shows_as_a_change() {
    let observer = observer(2);
    assert!(observer.has_changed(&Version(3)));
    assert!(observer.is_closed(&Version(3)));
    assert!(!observer.is_closed(&Version(2)));
}

#[test]
fn mapped_observers_follow_their_inner_observer() {
    let mut mapped = MappedSensorObserver::map_with(observer(2), |v: &i32| *v as i64 * 2);
    assert_eq!(mapped.read(&21).into_inner(), 42);
    mapped.mark_unseen(&Version(6));
    assert_eq!(mapped.inner.save_checkpoint(), Version(4));
    mapped.mark_seen(&Version(6));
    assert_eq!(mapped.save_checkpoint(), Version(6));
    mapped.restore_checkpoint(&Version(0));
    assert!(mapped.has_changed(&Version(6)));
    assert!(mapped.is_closed(&Version(7)));
}

#[test]
fn fused_observers_change_with_either() {
    let mut fused = FusedSensorObserver::fuse_with(observer(0), observer(2), |a: &i32, b: &i32| a - b);
    let latest = |a: usize, b: usize| FusedVersion {
        a: Version(a),
        b: Version(b),
    };
    assert!(!fused.has_changed(&latest(0, 2)));
    assert!(fused.has_changed(&latest(2, 2)));
    assert!(fused.has_changed(&latest(0, 4)));
    assert!(!fused.is_closed(&latest(1, 2)));
    assert!(!fused.is_closed(&latest(0, 3)));
    assert!(fused.is_closed(&latest(1, 3)));
    let checkpoint = fused.save_checkpoint();
    fused.mark_seen(&latest(4, 6));
    assert!(!fused.has_changed(&latest(4, 6)));
    fused.mark_unseen(&latest(4, 6));
    assert_eq!(fused.a.save_checkpoint(), Version(2));
    assert_eq!(fused.b.save_checkpoint(), Version(4));
    fused.restore_checkpoint(&checkpoint);
    assert!(!fused.has_changed(&latest(0, 2)));
    assert_eq!(fused.read(&9, &4).into_inner(), 5);
}

#[test]
fn observers_combine_in_any_depth() {
    let mut all = observer(0)
        .map(|v: &i32| *v + 1)
        .fuse(observer(0).fuse(observer(0), |a: &i32, b: &i32| a * b), |a: &i32, b: &i32| a + b);
    let inner = all.b.read(&3, &4).into_inner();
    let first = all.a.read(&1).into_inner();
    assert_eq!(all.read(&first, &inner).into_inner(), 14);
    assert!(all.has_changed(&FusedVersion {
        a: Version(0),
        b: FusedVersion {
            a: Version(0),
            b: Version(2),
        },
    }));
}

#[test]
fn an_observer_waits_with_its_own_or_an_older_version() {
    let mut observer = observer(4);
    assert_eq!(observer.wait_for(Version(6)), Version(4));
    assert_eq!(observer.wait_for(Version(0)), Version(usize::MAX - 1));
    assert_eq!(observer.wait_for_next(), Version(4));
    assert_eq!(observer.finish_wait('x', Version(8)), Ok('x'));
    assert_eq!(observer.save_checkpoint(), Version(8));
    assert_eq!(observer.finish_wait('y', Version(9)), Err('y'));
    assert_eq!(observer.save_checkpoint(), Version(9));
}

#[test]
fn a_mapped_wait_that_fails_maps_the_last_value() {
    let mut mapped = observer(0).map(|v: &i32| *v + 10);
    let failed = mapped.finish_wait(Err(&5), None);
    assert_eq!(failed.err().unwrap().into_inner(), 15);
    let mut kept = None;
    let mut condition = |v: &i32| *v == 12;
    assert!(!check(&mut mapped, &1, &mut condition, &mut kept));
    assert!(check(&mut mapped, &2, &mut condition, &mut kept));
    let succeeded = mapped.finish_wait(Ok(&2), kept);
    assert_eq!(succeeded.ok().unwrap().into_inner(), 12);
}

#[test]
fn owned_data_gives_its_data() {
    let mut data = OwnedData::from(2);
    *data.deref_mut() += 1;
    let copy = data;
    assert_eq!(copy.clone().into_inner(), 3);
    assert_eq!(*data, 3);
    assert_eq!(data.into_inner(), 3);
}

#[test]
fn drop_functions_run_at_the_end() {
    let mut guarded = DropFn::new(vec![1], |v: &mut Vec<i32>| v.push(9));
    assert_eq!(*guarded.deref(), vec![1]);
    guarded.deref_mut().push(2);
    assert_eq!(guarded.drop(), vec![1, 2, 9]);
}
