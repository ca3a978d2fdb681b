use sensor_fuse::poll::Poll;
use sensor_fuse::sensor_core::shared::{
    Checked, ConditionStep, ConditionWait, Core, Observer, RefWrapper, Wrapper, Writer,
};
use std::sync::Arc;

type ArcWriter = Writer<usize, Arc<Core<usize>>>;
type ArcObserver = Observer<usize, Arc<Core<usize>>>;

struct IsSend<S: Send>(S);

#[test]
fn send_proofs() {
    let writer: Writer<i32, Wrapper<i32>> = Writer::new_const(0);
    let reader = writer.observe_ref();
    let writer = writer.clone_ref();

    let _ = IsSend(writer.borrow_core().lock().write());
    let _ = IsSend(reader.borrow_core().lock().read());
    let _ = IsSend(reader.borrow_core().updated().listen());
    let _ = IsSend(reader.wait_for());
    let _ = IsSend(reader.wait_changed_inner());
    let _ = IsSend(writer);
    let _ = IsSend(reader);
}

#[test]
fn a_new_observer_has_seen_nothing() {
    let writer: ArcWriter = Writer::new(0);
    let mut observer: ArcObserver = writer.observe();
    assert!(observer.has_changed());
    observer.mark_seen();
    assert!(!observer.has_changed());
    observer.mark_unseen();
    assert!(observer.has_changed());
}

#[test]
fn arc_alloc_async_change_observation() {
    let writer: ArcWriter = Writer::new(0);
    let mut observer = writer.observe();
    observer.mark_seen();
    assert!(!observer.has_changed());
    writer.notify_all();
    assert!(observer.has_changed());
}

#[test]
fn arc_alloc_async_try_read_write() {
    let writer: ArcWriter = Writer::new(0);
    let observer = writer.observe();
    let write_guard = writer.try_write().unwrap();
    assert!(observer.try_read().is_none());
    drop(write_guard);
    assert!(observer.try_read().is_some());
}

#[test]
fn arc_alloc_async_closed() {
    let writer: ArcWriter = Writer::new(0);
    let observer = writer.observe();
    let second = writer.clone().unwrap();
    assert!(!writer.drop());
    assert!(!observer.is_closed());
    assert!(second.drop());
    assert!(observer.is_closed());
    assert!(observer.wait_changed_inner() == Poll::Ready(Err(())));
    assert_eq!(observer.wait_for().res, Err(()));
}

#[test]
fn borrowing_writers_are_not_counted() {
    let writer: Writer<i32, Wrapper<i32>> = Writer::new_const(3);
    let observer = writer.observe_ref_const();
    let borrowed: Writer<i32, RefWrapper<i32>> = writer.clone_ref_const();
    assert!(borrowed.clone().is_some());
    assert!(!borrowed.drop());
    assert!(!observer.is_closed());
}

#[test]
fn modifications_count_where_they_say_so() {
    let writer: ArcWriter = Writer::new(0);
    let mut observer = writer.observe();
    observer.mark_seen();
    {
        let mut guard = writer.try_write().unwrap();
        assert!(!writer.modify(&mut guard, |v| {
            *v += 1;
            false
        }));
    }
    assert!(!observer.has_changed());
    {
        let mut guard = writer.try_write().unwrap();
        assert!(writer.modify(&mut guard, |v| {
            *v += 1;
            true
        }));
    }
    assert!(observer.has_changed());
    assert_eq!(*observer.try_read().unwrap(), 2);
    observer.mark_seen();
    writer.update(&mut writer.try_write().unwrap(), 9);
    assert!(observer.has_changed());
    assert_eq!(*observer.try_read().unwrap(), 9);
}

#[test]
fn waits_are_decided_by_the_version() {
    let writer: ArcWriter = Writer::new(0);
    let mut observer = writer.observe();
    assert!(observer.wait_changed_inner() == Poll::Ready(Ok(())));
    observer.mark_seen();
    assert!(observer.wait_changed_inner() == Poll::Pending);
    writer.notify_all();
    assert!(observer.wait_changed_inner() == Poll::Ready(Ok(())));
    assert_eq!(observer.wait_for().res, Ok(()));
}

#[test]
fn notifications_reach_one_listener_and_are_passed_on() {
    let writer: ArcWriter = Writer::new(0);
    let observer = writer.observe();
    let core = observer.borrow_core();
    assert_eq!(core.updated().total_listeners(), 0);
    let first = core.updated().listen();
    let second = core.updated().listen();
    assert!(!core.updated().is_notified());
    writer.notify_all();
    assert!(core.updated().is_notified());
    drop(first);
    observer.pass_on();
    assert!(core.updated().is_notified());
    drop(second);
}

#[test]
fn conditions_are_tested_on_open_sensors_only() {
    let mut tested = 0;
    let mut condition = |v: &usize| {
        tested += 1;
        *v == 2
    };
    let wait = |res| ConditionWait {
        res,
        next: ConditionStep::Check,
    };
    let mut closed = wait(Err(()));
    assert!(closed.check(&2, &mut condition) == Checked::Closed);
    assert_eq!(closed.next, ConditionStep::Ended);
    let mut holds = wait(Ok(()));
    assert!(holds.check(&2, &mut condition) == Checked::Holds);
    assert_eq!(holds.next, ConditionStep::Ended);
    let mut fails = wait(Ok(()));
    assert!(fails.check(&3, &mut condition) == Checked::Fails);
    assert_eq!(fails.next, ConditionStep::WaitChanged);
    assert_eq!(tested, 2);
}

#[test]
fn a_wait_whose_condition_fails_is_pending() {
    let writer: Writer<usize, Wrapper<usize>> = Writer::new_const(0);
    let mut observer = writer.observe_ref();
    let mut condition = |v: &usize| *v == 2;
    let mut wait = observer.wait_for();
    let (core, seen) = observer.split();
    for value in [1, 2] {
        assert_eq!(wait.next, ConditionStep::Record);
        wait.record(core, seen);
        assert_eq!(wait.next, ConditionStep::Check);
        let guard = core.lock().try_read().unwrap();
        assert!(wait.check(&*guard, &mut condition) == Checked::Fails);
        drop(guard);
        assert!(!wait.wait_changed(core, seen));
        assert!(core.wait_changed(seen) == Poll::Pending);
        writer.update(&mut writer.try_write().unwrap(), value);
        assert!(wait.wait_changed(core, seen));
    }
    wait.record(core, seen);
    let guard = core.lock().try_read().unwrap();
    assert!(wait.check(&*guard, &mut condition) == Checked::Holds);
}

#[test]
fn a_wait_for_the_next_value_waits_first() {
    let writer: Writer<usize, Wrapper<usize>> = Writer::new_const(2);
    let mut observer = writer.observe_ref();
    observer.mark_seen();
    let copy = observer;
    let mut wait = observer.wait_for_next();
    let (core, seen) = observer.split();
    assert_eq!(wait.next, ConditionStep::WaitChanged);
    assert!(!wait.wait_changed(core, seen));
    writer.notify_all();
    assert!(wait.wait_changed(core, seen));
    assert_eq!(wait.next, ConditionStep::Record);
    assert!(copy.clone().has_changed());
}

#[test]
fn a_wait_on_a_closed_sensor_fails_without_a_test() {
    let writer: ArcWriter = Writer::new(2);
    let mut observer = writer.observe();
    assert!(writer.drop());
    let mut wait = observer.wait_for();
    assert_eq!(wait.res, Err(()));
    let (core, seen) = observer.split();
    wait.record(core, seen);
    let guard = core.lock().try_read().unwrap();
    assert!(wait.check(&*guard, &mut |_: &usize| panic!()) == Checked::Closed);
    assert_eq!(*guard, 2);
}

#[test]
fn cloned_writers_are_counted() {
    let writer: ArcWriter = Writer::new(0);
    let observer = writer.observe();
    let clones: Vec<ArcWriter> = (0..3).map(|_| writer.clone().unwrap()).collect();
    assert!(!writer.drop());
    let closed: Vec<bool> = clones.into_iter().map(|clone| clone.drop()).collect();
    assert_eq!(closed, vec![false, false, true]);
    assert!(observer.is_closed());
}
