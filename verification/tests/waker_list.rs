use sensor_fuse::poll::Poll;
use sensor_fuse::sensor_core::standard::{check_change, AsyncCore, WakerList};

#[test]
fn waiting_futures_are_woken_once_and_latest_first() {
    let mut list: WakerList<u32> = WakerList::new();
    let mut first = list.wait();
    let mut second = list.wait();
    assert!(first.poll(&mut list, &1) == Poll::Pending);
    assert!(second.poll(&mut list, &2) == Poll::Pending);
    assert!(first.poll(&mut list, &1) == Poll::Pending);
    assert_eq!(list.wake_all(), vec![2, 1]);
    assert_eq!(list.wake_all(), vec![]);
    assert!(first.poll(&mut list, &1) == Poll::Ready(()));
    assert!(second.poll(&mut list, &2) == Poll::Ready(()));
    assert!(first.poll(&mut list, &3) == Poll::Pending);
    assert_eq!(list.wake_all(), vec![3]);
}

#[test]
fn dropped_futures_are_not_woken() {
    let mut list: WakerList<u32> = WakerList::new();
    let mut first = list.wait();
    let mut second = list.wait();
    let mut third = list.wait();
    let _ = first.poll(&mut list, &1);
    let _ = second.poll(&mut list, &2);
    let _ = third.poll(&mut list, &3);
    second.drop(&mut list);
    assert_eq!(list.wake_all(), vec![3, 1]);
    first.drop(&mut list);
    assert!(third.poll(&mut list, &3) == Poll::Ready(()));
    list.wait().drop(&mut list);
}

#[test]
fn changes_are_told_by_version() {
    assert_eq!(check_change(0, 0), None);
    assert_eq!(check_change(2, 0), Some(Ok(2)));
    assert_eq!(check_change(2, 3), None);
    assert_eq!(check_change(1, 0), Some(Err(1)));
    assert_eq!(check_change(3, 0), Some(Err(3)));
}

#[test]
fn async_core_waits_for_a_version() {
    let core: AsyncCore<i32> = AsyncCore::new(5);
    let mut list: WakerList<u32> = WakerList::new();
    assert_eq!(core.version(), 0);
    let mut waiting = core.wait_changed(0);
    assert!(waiting.poll(&core, &mut list, &7) == Poll::Pending);
    assert!(waiting.poll(&core, &mut list, &7) == Poll::Pending);
    core.bump_version();
    assert_eq!(core.version(), 2);
    assert_eq!(list.wake_all(), vec![7]);
    assert!(waiting.poll(&core, &mut list, &7) == Poll::Ready(Ok(2)));
    waiting.drop(&mut list);
    assert_eq!(list.wake_all(), vec![]);
    let mut at_once = core.wait_changed(0);
    assert!(at_once.poll(&core, &mut list, &8) == Poll::Ready(Ok(2)));
    at_once.drop(&mut list);
}

#[test]
fn async_core_closes_with_its_last_writer() {
    let core: AsyncCore<i32> = AsyncCore::new(5);
    let mut list: WakerList<u32> = WakerList::new();
    core.register_writer();
    core.register_writer();
    core.deregister_writer();
    assert_eq!(core.version(), 0);
    core.deregister_writer();
    assert_eq!(core.version(), 1);
    let mut waiting = core.wait_changed(0);
    assert!(waiting.poll(&core, &mut list, &7) == Poll::Ready(Err(1)));
}

#[test]
fn async_core_locks_its_value() {
    let core: AsyncCore<i32> = AsyncCore::new(5);
    {
        let read = core.try_read().unwrap();
        assert_eq!(*read, 5);
        assert!(core.try_read().is_some());
        assert!(core.try_write().is_none());
    }
    {
        let mut write = core.try_write().unwrap();
        *write = 6;
        assert!(core.try_read().is_none());
    }
    assert_eq!(*core.lock().try_read().unwrap(), 6);
}
