use sensor_fuse::observer::{
    MappedSensorObserver, OwnedData, SensorCombine, SensorObserve, SensorObserver,
};
use sensor_fuse::poll::Poll;
use sensor_fuse::sensor_core::no_alloc::{AsyncSingleCore, ReadGuard, WriteGuard};
use sensor_fuse::version::{FusedVersion, Version, VersionFunctionality};
use sensor_fuse::waiting::{FusedWait, FusedWaitChangedFut, SensorObserveAsync, WaitStep};
use sensor_fuse::writer::{ShareStrategy, SensorWriter};

type Core = AsyncSingleCore<usize, u32>;
type Writer = SensorWriter<usize, Core>;

fn sensor(value: usize) -> (Writer, Core) {
    SensorWriter::from_value(value)
}

fn ready<T>(polled: Poll<T>) -> T {
    match polled {
        Poll::Ready(value) => value,
        Poll::Pending => panic!("pending"),
    }
}

fn is_pending<T>(polled: &Poll<T>) -> bool {
    matches!(polled, Poll::Pending)
}

fn write_now(core: &mut Core) -> WriteGuard {
    let mut write = core.write();
    ready(write.poll(core, &0))
}

fn read_now(core: &mut Core) -> ReadGuard {
    let mut read = core.read();
    ready(read.poll(core, &0))
}

fn set(writer: &Writer, core: &mut Core, value: usize, changed: bool) -> (bool, Vec<u32>) {
    let guard = write_now(core);
    writer.modify_with(core, guard, |v| {
        *v = value;
        changed
    })
}

#[test]
fn no_alloc_async_change_observation() {
    let (writer, mut core) = sensor(0);
    let observer = writer.spawn_observer(&core);
    assert!(!observer.has_changed(&core.version()));
    assert_eq!(writer.mark_all_unseen(&mut core), vec![]);
    assert!(observer.has_changed(&core.version()));
}

#[test]
fn no_alloc_async_try_read_write() {
    let (writer, mut core) = sensor(0);
    let write_guard = writer.try_write(&mut core).unwrap();
    assert!(writer.try_read(&mut core).is_none());
    assert!(writer.try_write(&mut core).is_none());
    assert_eq!(write_guard.drop(&mut core), vec![]);
    assert!(writer.try_read(&mut core).is_some());
    assert!(writer.try_write(&mut core).is_none());
    assert!(writer.try_read(&mut core).is_some());
}

#[test]
fn no_alloc_async_closed() {
    let (writer, mut core) = sensor(0);
    let observer = writer.spawn_observer(&core);
    writer.drop(&mut core);
    assert!(observer.is_closed(&core.version()));
    assert!(observer.has_changed(&core.version()));
}

#[test]
fn the_end_of_the_last_writer_wakes_those_that_wait() {
    let (writer, mut core) = sensor(3);
    let mut observer = writer.spawn_observer(&core);
    let second = writer.clone(&mut core);
    let mut changed = core.wait_changed(observer.save_checkpoint());
    assert!(is_pending(&changed.poll(&mut core, &1)));
    let mut condition = |v: &usize| *v == 2;
    let mut waiting = core.wait_for(observer.wait_for_next());
    assert!(is_pending(&waiting.poll(&mut core, &2, &mut condition).0));
    assert_eq!(writer.drop(&mut core), vec![]);
    assert!(is_pending(&changed.poll(&mut core, &1)));
    assert_eq!(second.drop(&mut core), vec![2, 1]);
    assert_eq!(ready(changed.poll(&mut core, &1)), Version(1));
    let (guard, version) = ready(waiting.poll(&mut core, &2, &mut condition).0);
    let guard = observer.finish_wait(guard, version).err().unwrap();
    assert_eq!(*guard.deref(&core), 3);
    assert_eq!(guard.drop(&mut core), vec![]);
    assert!(core.try_write().is_some());
}

#[test]
fn a_guard_of_a_closed_sensor_is_given_back_like_any_other() {
    let (writer, mut core) = sensor(3);
    writer.drop(&mut core);
    let first = core.try_read().unwrap();
    let second = core.try_read().unwrap();
    let mut waiting = core.wait_for(core.version());
    let mut condition = |_: &usize| panic!();
    let (guard, _) = ready(waiting.poll(&mut core, &2, &mut condition).0);
    assert!(core.is_read());
    assert_eq!(guard.drop(&mut core), vec![]);
    assert!(core.is_read());
    assert_eq!(first.drop(&mut core), vec![]);
    assert!(!core.is_read());
    assert_eq!(*second.deref(&core), 3);
}

#[test]
fn only_the_last_writer_closes() {
    let (writer, mut core) = sensor(0);
    let observer = writer.spawn_referenced_observer(&core);
    let second = writer.clone(&mut core);
    writer.drop(&mut core);
    assert!(!observer.is_closed(&core.version()));
    second.drop(&mut core);
    assert!(observer.is_closed(&core.version()));
    assert_eq!(core.version(), Version(1));
}

#[test]
fn read() {
    let (writer, mut core) = sensor(0);
    let observer = writer.spawn_observer(&core);
    assert!(!observer.has_changed(&core.version()));
    let guard = read_now(&mut core);
    assert_eq!(*guard.deref(&core), 0);
    assert_eq!(guard.drop(&mut core), vec![]);
}

#[test]
fn write_read() {
    let (writer, mut core) = sensor(0);
    let observer = writer.spawn_observer(&core);
    let guard = write_now(&mut core);
    assert_eq!(*guard.deref(&core), 0);
    *guard.deref_mut(&mut core) = 1;
    guard.drop(&mut core);
    assert!(!observer.has_changed(&core.version()));
    let guard = read_now(&mut core);
    assert_eq!(*guard.deref(&core), 1);
}

#[test]
fn modify() {
    let (writer, mut core) = sensor(0);
    let observer = writer.spawn_observer(&core);
    let guard = write_now(&mut core);
    let modified = writer.modify_with(&mut core, guard, |v| {
        *v += 1;
        false
    });
    assert_eq!(modified, (false, vec![]));
    assert!(!observer.has_changed(&core.version()));
    let guard = write_now(&mut core);
    let modified = writer.modify_with(&mut core, guard, |v| {
        *v += 1;
        true
    });
    assert_eq!(modified, (true, vec![]));
    assert!(observer.has_changed(&core.version()));
    assert_eq!(*read_now(&mut core).deref(&core), 2);
}

#[test]
fn update_replaces_the_value() {
    let (writer, mut core) = sensor(0);
    let guard = write_now(&mut core);
    assert_eq!(writer.update(&mut core, guard, 7), vec![]);
    assert_eq!(core.version(), Version(2));
    assert_eq!(*read_now(&mut core).deref(&core), 7);
}

#[test]
fn wait_changed() {
    let (writer, mut core) = sensor(0);
    let observer = writer.spawn_observer(&core);
    let mut waiting = core.wait_changed(observer.save_checkpoint());
    assert!(is_pending(&waiting.poll(&mut core, &5)));

    assert_eq!(set(&writer, &mut core, 1, false), (false, vec![]));
    assert!(!observer.has_changed(&core.version()));
    assert!(is_pending(&waiting.poll(&mut core, &5)));

    assert_eq!(set(&writer, &mut core, 2, true), (true, vec![5]));
    assert!(observer.has_changed(&core.version()));
    assert_eq!(ready(waiting.poll(&mut core, &5)), Version(2));
    assert_eq!(
        observer.wait_until_changed(&core.version()),
        Poll::Ready(Ok(Version(2)))
    );
}

#[test]
fn wait_changed_tells_of_the_end() {
    let (writer, mut core) = sensor(0);
    let observer = writer.spawn_observer(&core);
    assert_eq!(observer.wait_until_changed(&core.version()), Poll::Pending);
    writer.drop(&mut core);
    assert_eq!(
        observer.wait_until_changed(&core.version()),
        Poll::Ready(Err(Version(1)))
    );
    let mut waiting = core.wait_changed(observer.save_checkpoint());
    assert_eq!(ready(waiting.poll(&mut core, &1)), Version(1));
}

#[test]
fn wait_for() {
    let (writer, mut core) = sensor(0);
    let mut observer = writer.spawn_observer(&core);
    let mut condition = |v: &usize| *v == 2;
    let mut waiting = core.wait_for(observer.wait_for(core.version()));
    assert!(is_pending(&waiting.poll(&mut core, &3, &mut condition).0));

    assert_eq!(set(&writer, &mut core, 1, true), (true, vec![3]));
    assert!(is_pending(&waiting.poll(&mut core, &3, &mut condition).0));

    assert_eq!(set(&writer, &mut core, 2, true), (true, vec![3]));
    let (guard, version) = ready(waiting.poll(&mut core, &3, &mut condition).0);
    assert_eq!(*guard.deref(&core), 2);
    let guard = observer.finish_wait(guard, version).ok().unwrap();
    assert_eq!(observer.save_checkpoint(), Version(4));
    assert_eq!(guard.drop(&mut core), vec![]);
    waiting.drop(&mut core);
    assert!(writer.try_write(&mut core).is_some());
}

#[test]
fn wait_for_checks_the_current_value() {
    let (writer, mut core) = sensor(2);
    let observer = writer.spawn_observer(&core);
    let mut condition = |v: &usize| *v == 2;
    let mut waiting = core.wait_for(observer.wait_for(core.version()));
    assert!(!is_pending(&waiting.poll(&mut core, &3, &mut condition).0));
}

#[test]
fn wait_for_next_skips_the_current_value() {
    let (writer, mut core) = sensor(2);
    let observer = writer.spawn_observer(&core);
    let mut condition = |v: &usize| *v == 2;
    let mut waiting = core.wait_for(observer.wait_for_next());
    assert!(is_pending(&waiting.poll(&mut core, &3, &mut condition).0));
    assert_eq!(writer.mark_all_unseen(&mut core), vec![3]);
    assert!(!is_pending(&waiting.poll(&mut core, &3, &mut condition).0));
}

#[test]
fn wait_for_ends_with_an_error_on_a_closed_sensor() {
    let (writer, mut core) = sensor(0);
    let mut observer = writer.spawn_observer(&core);
    writer.drop(&mut core);
    let mut condition = |v: &usize| *v == 2;
    let mut waiting = core.wait_for(observer.wait_for(core.version()));
    let (guard, version) = ready(waiting.poll(&mut core, &3, &mut condition).0);
    let guard = observer.finish_wait(guard, version).err().unwrap();
    assert_eq!(*guard.deref(&core), 0);
}

#[test]
fn mapped_read() {
    let (writer, mut core) = sensor(0);
    let mut observer = writer.spawn_observer(&core).map(|v: &usize| *v + 10);
    let guard = write_now(&mut core);
    *guard.deref_mut(&mut core) = 1;
    guard.drop(&mut core);
    assert!(!observer.has_changed(&core.version()));
    let guard = read_now(&mut core);
    assert_eq!(observer.read(guard.deref(&core)).into_inner(), 11);
}

#[test]
fn mapped_wait_changed() {
    let (writer, mut core) = sensor(0);
    let observer = writer.spawn_observer(&core).map(|v: &usize| *v + 10);
    let mut waiting = core.wait_changed(observer.save_checkpoint());
    assert!(is_pending(&waiting.poll(&mut core, &5)));
    assert_eq!(set(&writer, &mut core, 1, false), (false, vec![]));
    assert!(!observer.has_changed(&core.version()));
    assert!(is_pending(&waiting.poll(&mut core, &5)));
    assert_eq!(observer.wait_until_changed(&core.version()), Poll::Pending);
    assert_eq!(set(&writer, &mut core, 2, true), (true, vec![5]));
    assert!(observer.has_changed(&core.version()));
    assert!(!is_pending(&waiting.poll(&mut core, &5)));
    assert_eq!(
        observer.wait_until_changed(&core.version()),
        Poll::Ready(Ok(Version(2)))
    );
}

#[test]
fn mapped_wait_for() {
    let (writer, mut core) = sensor(0);
    let mut observer = writer.spawn_observer(&core).map(|v: &usize| *v + 10);
    let mut mapped = None;
    let mut waiting = core.wait_for(observer.inner.wait_for(core.version()));
    let (guard, version) = {
        let mut check = |v: &usize| {
            check_mapped(&mut observer, v, &mut |m: &usize| *m == 12, &mut mapped)
        };
        assert!(is_pending(&waiting.poll(&mut core, &3, &mut check).0));
        assert_eq!(set(&writer, &mut core, 1, true), (true, vec![3]));
        assert!(is_pending(&waiting.poll(&mut core, &3, &mut check).0));
        assert_eq!(set(&writer, &mut core, 2, true), (true, vec![3]));
        ready(waiting.poll(&mut core, &3, &mut check).0)
    };
    let guard = observer.inner.finish_wait(guard, version).ok().unwrap();
    let result = observer.finish_wait(Ok(guard.deref(&core)), mapped);
    assert_eq!(result.ok().unwrap().into_inner(), 12);
}

fn check_mapped<F: FnMut(&usize) -> usize, C: FnMut(&usize) -> bool>(
    observer: &mut MappedSensorObserver<SensorObserver<usize>, usize, F>,
    value: &usize,
    condition: &mut C,
    kept: &mut Option<OwnedData<usize>>,
) -> bool {
    MappedSensorObserver::<SensorObserver<usize>, usize, F>::check(
        &mut observer.map,
        value,
        condition,
        kept,
    )
}

fn fused_latest(a: &Core, b: &Core) -> FusedVersion<Version, Version> {
    FusedVersion {
        a: a.version(),
        b: b.version(),
    }
}

#[test]
fn fused_read() {
    let (writer1, mut core1) = sensor(0);
    let (writer2, mut core2) = sensor(3);
    let mut observer = writer1
        .spawn_observer(&core1)
        .fuse(writer2.spawn_observer(&core2), |x: &usize, y: &usize| *x + *y);
    let guard = write_now(&mut core1);
    assert_eq!(*guard.deref(&core1), 0);
    *guard.deref_mut(&mut core1) = 1;
    guard.drop(&mut core1);
    assert!(!observer.has_changed(&fused_latest(&core1, &core2)));
    let a = read_now(&mut core1);
    let b = read_now(&mut core2);
    assert_eq!(observer.read(a.deref(&core1), b.deref(&core2)).into_inner(), 4);
}

#[test]
fn fused_wait_changed() {
    let (writer1, mut core1) = sensor(0);
    let (writer2, mut core2) = sensor(0);
    let mut observer = writer1
        .spawn_observer(&core1)
        .fuse(writer2.spawn_observer(&core2), |x: &usize, y: &usize| *x + *y);

    let mut wait1 = core1.wait_changed(observer.a.save_checkpoint());
    let mut wait2 = core2.wait_changed(observer.b.save_checkpoint());
    assert!(is_pending(&wait1.poll(&mut core1, &8)));
    assert!(is_pending(&wait2.poll(&mut core2, &8)));
    assert_eq!(set(&writer1, &mut core1, 1, false), (false, vec![]));
    assert_eq!(set(&writer2, &mut core2, 1, false), (false, vec![]));
    assert!(!observer.has_changed(&fused_latest(&core1, &core2)));
    assert!(is_pending(&observer.wait_until_changed(&fused_latest(&core1, &core2))));

    assert_eq!(set(&writer1, &mut core1, 2, true), (true, vec![8]));
    assert!(observer.has_changed(&fused_latest(&core1, &core2)));
    match observer.wait_until_changed(&fused_latest(&core1, &core2)) {
        Poll::Ready(Ok(version)) => {
            assert_eq!(version.a, Version(2));
            assert_eq!(version.b, Version(0));
        }
        _ => panic!(),
    }

    observer.mark_seen(&fused_latest(&core1, &core2));
    assert!(!observer.has_changed(&fused_latest(&core1, &core2)));
    assert!(is_pending(&observer.wait_until_changed(&fused_latest(&core1, &core2))));
    assert_eq!(set(&writer2, &mut core2, 2, true), (true, vec![8]));
    assert!(observer.has_changed(&fused_latest(&core1, &core2)));
    match observer.wait_until_changed(&fused_latest(&core1, &core2)) {
        Poll::Ready(Ok(version)) => {
            assert_eq!(version.a, Version(2));
            assert_eq!(version.b, Version(2));
        }
        _ => panic!(),
    }
}

#[test]
fn fused_wait_ends_once_both_are_closed() {
    let (writer1, mut core1) = sensor(0);
    let (writer2, mut core2) = sensor(0);
    let observer = writer1
        .spawn_observer(&core1)
        .fuse(writer2.spawn_observer(&core2), |x: &usize, y: &usize| *x + *y);
    writer1.drop(&mut core1);
    let latest = fused_latest(&core1, &core2);
    assert!(!latest.closed());
    assert!(!observer.is_closed(&latest));
    assert!(observer.has_changed(&latest));
    assert!(is_pending(&observer.wait_until_changed(&latest)));
    writer2.drop(&mut core2);
    let latest = fused_latest(&core1, &core2);
    assert!(latest.closed());
    assert!(observer.is_closed(&latest));
    match observer.wait_until_changed(&latest) {
        Poll::Ready(Err(version)) => {
            assert_eq!(version.a, Version(1));
            assert_eq!(version.b, Version(1));
        }
        _ => panic!(),
    }
}

#[test]
fn fused_future_remembers_that_the_first_sensor_is_closed() {
    let mut future = FusedWaitChangedFut::new(Version(0), Version(4));
    let mut asked = 0;
    assert!(is_pending(&future.poll(
        &mut || {
            asked += 1;
            Poll::Ready(Err(Version(1)))
        },
        &mut || Poll::Pending,
    )));
    match future.poll(
        &mut || {
            asked += 1;
            Poll::Pending
        },
        &mut || Poll::Ready(Ok(Version(6))),
    ) {
        Poll::Ready(Ok(version)) => {
            assert_eq!(version.a, Version(1));
            assert_eq!(version.b, Version(6));
        }
        _ => panic!(),
    }
    assert_eq!(asked, 1);
}

#[test]
fn fused_wait_for() {
    let (writer1, mut core1) = sensor(0);
    let (writer2, mut core2) = sensor(0);
    let mut observer = writer1
        .spawn_observer(&core1)
        .fuse(writer2.spawn_observer(&core2), |x: &usize, y: &usize| *x + *y);
    let mut condition = |v: &usize| *v > 2;

    let mut wait: FusedWait<Version, Version> = observer.wait_for();
    assert!(matches!(wait.next, WaitStep::Check));
    assert!(wait.check(&mut observer, &0, &0, &mut condition).is_none());
    assert!(matches!(wait.next, WaitStep::WaitChanged));
    assert_eq!(set(&writer1, &mut core1, 1, false), (false, vec![]));
    assert_eq!(set(&writer2, &mut core2, 1, false), (false, vec![]));
    assert!(is_pending(&observer.wait_until_changed(&fused_latest(&core1, &core2))));
    assert_eq!(set(&writer1, &mut core1, 2, true), (true, vec![]));
    assert!(!is_pending(&observer.wait_until_changed(&fused_latest(&core1, &core2))));
    wait.changed();
    assert!(matches!(wait.next, WaitStep::Check));
    let fused = wait.check(&mut observer, &2, &1, &mut condition).unwrap();
    assert_eq!(fused.into_inner(), 3);
    wait.end(&mut observer);

    observer.mark_seen(&fused_latest(&core1, &core2));
    let mut condition = |v: &usize| *v > 3;
    let mut wait = observer.wait_for();
    assert!(wait.check(&mut observer, &2, &1, &mut condition).is_none());
    assert_eq!(set(&writer2, &mut core2, 2, true), (true, vec![]));
    wait.changed();
    let fused = wait.check(&mut observer, &2, &2, &mut condition).unwrap();
    assert_eq!(fused.into_inner(), 4);
    wait.end(&mut observer);
    assert_eq!(observer.a.save_checkpoint(), Version(2));
    assert_eq!(observer.b.save_checkpoint(), Version(0));
}

#[test]
fn fused_wait_for_next_waits_first() {
    let (writer1, core1) = sensor(5);
    let (writer2, core2) = sensor(5);
    let observer = writer1
        .spawn_observer(&core1)
        .fuse(writer2.spawn_observer(&core2), |x: &usize, y: &usize| *x + *y);
    assert!(matches!(observer.wait_for_next().next, WaitStep::WaitChanged));
    assert!(matches!(observer.wait_for_inner(true).next, WaitStep::Check));
    assert!(matches!(observer.wait_for_inner(false).next, WaitStep::WaitChanged));
}

#[test]
fn queued_requests_are_granted_in_order() {
    let (_writer, mut core) = sensor(0);
    let guard = write_now(&mut core);
    let mut read1 = core.read();
    let mut read2 = core.read();
    let mut write = core.write();
    let mut read3 = core.read();
    assert!(is_pending(&read1.poll(&mut core, &1)));
    assert!(is_pending(&read2.poll(&mut core, &2)));
    assert!(is_pending(&write.poll(&mut core, &3)));
    assert!(is_pending(&read3.poll(&mut core, &4)));
    assert_eq!(guard.drop(&mut core), vec![1, 2]);
    let guard1 = ready(read1.poll(&mut core, &1));
    let guard2 = ready(read2.poll(&mut core, &2));
    assert!(is_pending(&write.poll(&mut core, &3)));
    assert!(is_pending(&read3.poll(&mut core, &4)));
    assert_eq!(guard1.drop(&mut core), vec![]);
    assert_eq!(guard2.drop(&mut core), vec![3]);
    let guard = ready(write.poll(&mut core, &3));
    assert_eq!(guard.drop(&mut core), vec![4]);
    assert!(!is_pending(&read3.poll(&mut core, &4)));
}

#[test]
fn a_read_does_not_overtake_a_queued_write() {
    let (_writer, mut core) = sensor(0);
    let guard = read_now(&mut core);
    let mut write = core.write();
    assert!(is_pending(&write.poll(&mut core, &1)));
    let mut read = core.read();
    assert!(is_pending(&read.poll(&mut core, &2)));
    write.drop(&mut core);
    let guard2 = core.try_read();
    assert!(guard2.is_none());
    assert_eq!(guard.drop(&mut core), vec![2]);
    assert!(!is_pending(&read.poll(&mut core, &2)));
}

#[test]
fn a_dropped_waiter_is_not_woken() {
    let (writer, mut core) = sensor(0);
    let mut first = core.wait_changed(core.version());
    let mut second = core.wait_changed(core.version());
    assert!(is_pending(&first.poll(&mut core, &1)));
    assert!(is_pending(&second.poll(&mut core, &2)));
    first.drop(&mut core);
    assert_eq!(writer.mark_all_unseen(&mut core), vec![2]);
    assert_eq!(ready(second.poll(&mut core, &2)), Version(2));
}

#[test]
fn observers_of_one_core_are_independent() {
    let (writer, mut core) = sensor(0);
    let mut seen: SensorObserver<usize> = writer.spawn_observer(&core);
    let unseen: SensorObserver<usize> = writer.spawn_observer(&core);
    writer.mark_all_unseen(&mut core);
    seen.mark_seen(&core.version());
    assert!(!seen.has_changed(&core.version()));
    assert!(unseen.has_changed(&core.version()));
}

#[test]
fn shared_cores_are_borrowed_and_counted() {
    let (_writer, core) = sensor(4);
    let borrowed: &Core = (&core).share_data();
    assert_eq!(borrowed.version(), Version(0));
    assert_eq!((&core).share_elided_ref().version(), Version(0));
    let counted = std::sync::Arc::new(core);
    let another = (&counted).share_data();
    assert!(std::sync::Arc::ptr_eq(&counted, &another));
    assert_eq!((&counted).share_elided_ref().version(), Version(0));
}
