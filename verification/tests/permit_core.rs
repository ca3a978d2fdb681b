use sensor_fuse::sensor_core::in_house::{
    Core, Node, Observer, ReadGuard, Writer, MAX_READ_PERMITS, MAX_WAKE_CLUSTERING,
    STATE_COMPLETE_BIT, STATE_WAKE_NEXT_BIT, WRITE_PERMIT_VALUE,
};

fn node(waker: u32, is_write: bool) -> Node<u32> {
    Node {
        waker,
        state: 0,
        is_write,
    }
}

fn wakers(nodes: &Vec<Node<u32>>) -> Vec<u32> {
    nodes.iter().map(|node| node.waker).collect()
}

fn states(nodes: &Vec<Node<u32>>) -> Vec<u8> {
    nodes.iter().map(|node| node.state).collect()
}

#[test]
fn permits_are_taken_and_given_back() {
    let mut core: Core<i32, u32> = Core::new(0);
    assert_eq!(core.lock_state, WRITE_PERMIT_VALUE);
    assert_eq!(core.get_read_permits(3), 3);
    assert_eq!(core.lock_state, WRITE_PERMIT_VALUE - 3);
    assert!(!core.get_write_permit());
    core.increase_read_permits(2);
    assert_eq!(core.lock_state, WRITE_PERMIT_VALUE - 5);
    core.release_read_permits(5);
    assert!(core.get_write_permit());
    assert_eq!(core.lock_state, 0);
    assert_eq!(core.get_read_permits(1), 0);
    core.release_write_permit();
    assert_eq!(core.lock_state, WRITE_PERMIT_VALUE);
    assert_eq!(core.get_read_permits(WRITE_PERMIT_VALUE), 0);
    assert_eq!(MAX_READ_PERMITS, usize::MAX / 2);
}

#[test]
fn a_write_that_ends_becomes_reads() {
    let mut core: Core<i32, u32> = Core::new(0);
    let guard = Writer.try_write(&mut core).unwrap();
    assert!(Writer.try_write(&mut core).is_none());
    *guard.deref_mut(&mut core) = 5;
    core.rw.push(node(1, false));
    core.rw.push(node(2, false));
    core.rw.push(node(3, true));
    core.rw.push(node(4, false));
    let served = guard.drop(&mut core);
    assert!(served.write.is_none());
    let woken = served.woken;
    assert_eq!(wakers(&woken), vec![1, 2]);
    assert_eq!(states(&woken), vec![STATE_COMPLETE_BIT, STATE_COMPLETE_BIT]);
    assert_eq!(core.lock_state, WRITE_PERMIT_VALUE - 2);
    assert_eq!(wakers(&core.rw), vec![3, 4]);
    assert!(!core.rw_head_taken);
    let read = ReadGuard::new(&woken[0]).unwrap();
    assert_eq!(*read.deref(&core), 5);
    assert!(ReadGuard::new(&core.rw[0]).is_none());
    assert!(ReadGuard::new(&core.rw[1]).is_none());
    let served = read.drop(&mut core);
    assert!(served.woken.is_empty());
    assert!(served.write.is_none());
    core.release_read_permits(2);
    let served = core.wake_rw_queue(false);
    assert!(served.woken.is_empty());
    let write = served.write.unwrap();
    assert_eq!(write.waker, 3);
    assert_eq!(write.state, STATE_COMPLETE_BIT);
    assert_eq!(core.lock_state, 0);
    assert_eq!(wakers(&core.rw), vec![4]);
}

#[test]
fn full_clusters_pass_the_wake_on() {
    let mut core: Core<i32, u32> = Core::new(0);
    for waker in 0..10 {
        core.rw.push(node(waker, false));
    }
    let woken = core.wake_rw_queue(false).woken;
    assert_eq!(wakers(&woken), vec![0, 1, 2, 3, 4, 5, 6, 7]);
    assert_eq!(woken[6].state, STATE_COMPLETE_BIT);
    assert_eq!(woken[7].state, STATE_COMPLETE_BIT | STATE_WAKE_NEXT_BIT);
    assert!(core.rw_head_taken);
    assert_eq!(core.lock_state, WRITE_PERMIT_VALUE - MAX_WAKE_CLUSTERING);
    assert!(core.wake_rw_queue(false).woken.is_empty());
    let woken = core.wake_next_read(1);
    assert_eq!(wakers(&woken), vec![8, 9]);
    assert_eq!(states(&woken), vec![STATE_COMPLETE_BIT, STATE_COMPLETE_BIT]);
    assert!(!core.rw_head_taken);
    assert_eq!(core.lock_state, WRITE_PERMIT_VALUE - MAX_WAKE_CLUSTERING - 1);
}

#[test]
fn a_notification_completes_pending_reads_and_the_first_waiter() {
    let mut core: Core<i32, u32> = Core::new(0);
    core.pr.push(node(1, false));
    core.pr.push(node(2, false));
    core.wc.push(node(4, false));
    core.wc.push(node(3, false));
    let observer = Observer { version: 0 };
    assert!(!observer.has_changed(&core));
    let notified = Writer.notify_all(&mut core);
    assert!(observer.has_changed(&core));
    assert_eq!(core.version, 2);
    assert_eq!(wakers(&notified.changed), vec![4]);
    assert_eq!(
        states(&notified.changed),
        vec![STATE_COMPLETE_BIT | STATE_WAKE_NEXT_BIT]
    );
    assert_eq!(wakers(&notified.changed_rest), vec![3]);
    assert_eq!(wakers(&notified.reads), vec![1, 2]);
    assert!(core.pr.is_empty());
    assert!(core.wc.is_empty());
    assert_eq!(core.lock_state, WRITE_PERMIT_VALUE - 2);
    let (woken, rest) = Core::<i32, u32>::wake_next_wait_changed(notified.changed_rest);
    assert_eq!(wakers(&woken), vec![3]);
    assert_eq!(states(&woken), vec![STATE_COMPLETE_BIT]);
    assert!(rest.is_empty());
}

#[test]
fn a_notification_queues_pending_reads_behind_others() {
    let mut core: Core<i32, u32> = Core::new(0);
    assert!(core.get_write_permit());
    core.rw.push(node(1, true));
    core.pr.push(node(2, false));
    let notified = core.notify_all(0);
    assert!(notified.reads.is_empty());
    assert_eq!(wakers(&core.rw), vec![1, 2]);
    core.rw.clear();
    core.pr.push(node(3, false));
    let notified = core.notify_all(0);
    assert!(notified.reads.is_empty());
    assert_eq!(wakers(&core.rw), vec![3]);
}

#[test]
fn a_notification_can_give_permits_away() {
    let mut core: Core<i32, u32> = Core::new(0);
    assert!(core.get_write_permit());
    core.pr.push(node(2, false));
    let notified = core.notify_all(WRITE_PERMIT_VALUE);
    assert_eq!(wakers(&notified.reads), vec![2]);
    assert_eq!(core.lock_state, WRITE_PERMIT_VALUE - 1);
}

#[test]
fn clusters_of_waiters_are_bounded() {
    let waiting: Vec<Node<u32>> = (0..9).map(|waker| node(waker, false)).collect();
    let (woken, rest) = Core::<i32, u32>::wake_next_wait_changed(waiting);
    assert_eq!(woken.len(), MAX_WAKE_CLUSTERING);
    assert_eq!(woken[7].state, STATE_COMPLETE_BIT | STATE_WAKE_NEXT_BIT);
    assert_eq!(wakers(&rest), vec![8]);
}

#[test]
fn permit_core_observers() {
    let mut core: Core<i32, u32> = Core::new(0);
    let mut observer = Observer { version: 0 };
    observer.mark_unseen(&core);
    assert_eq!(observer.version, usize::MAX - 1);
    assert!(observer.has_changed(&core));
    observer.mark_seen(&core);
    assert!(!observer.has_changed(&core));
    assert!(!observer.is_closed(&core));
    core.version = 3;
    assert!(observer.is_closed(&core));
}
