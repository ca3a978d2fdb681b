use sensor_fuse::version::{
    closed_bit_set, last_writer, same_update, too_many_writers, FusedVersion, Version,
    VersionFunctionality, CLOSED_BIT, VERSION_BUMP, VERSION_INIT, VERSION_MASK,
};

#[test]
fn constants() {
    assert_eq!(CLOSED_BIT, 1);
    assert_eq!(VERSION_BUMP, 2);
    assert_eq!(VERSION_MASK, usize::MAX - 1);
    assert_eq!(VERSION_INIT, 0usize.wrapping_sub(2));
}

#[test]
fn increment_and_decrement_are_inverse() {
    for raw in [0, 1, 2, 7, usize::MAX - 1, usize::MAX] {
        let mut version = Version(raw);
        version.increment();
        assert_eq!(version, Version(raw.wrapping_add(2)));
        version.decrement();
        assert_eq!(version, Version(raw));
        version.decrement();
        assert_eq!(version, Version(raw.wrapping_sub(2)));
        version.increment();
        assert_eq!(version, Version(raw));
    }
}

#[test]
fn closing_keeps_the_count_and_is_final() {
    let mut version = Version(6);
    assert!(!version.closed_bit_set());
    version.set_closed_bit();
    assert_eq!(version, Version(7));
    assert!(version.closed_bit_set());
    assert!(same_update(6, version.0));
    version.set_closed_bit();
    assert_eq!(version, Version(7));
    version.increment();
    assert!(version.closed());
}

#[test]
fn the_first_update_leads_to_zero() {
    let mut version = Version(VERSION_INIT);
    assert!(!version.closed());
    version.increment();
    assert_eq!(version, Version(0));
}

#[test]
fn missed_updates_show() {
    let seen = Version(usize::MAX - 3);
    let mut version = seen;
    for _ in 0..1000 {
        version.increment();
        assert_ne!(version, seen);
    }
}

#[test]
fn closed_bit_and_count() {
    assert!(!closed_bit_set(0));
    assert!(closed_bit_set(1));
    assert!(!closed_bit_set(usize::MAX - 1));
    assert!(closed_bit_set(usize::MAX));
    assert!(same_update(4, 5));
    assert!(!same_update(4, 6));
    assert!(!same_update(5, 6));
}

#[test]
fn writer_counts() {
    assert!(!last_writer(0));
    assert!(last_writer(1));
    assert!(!last_writer(2));
    assert!(!too_many_writers(0));
    assert!(!too_many_writers(usize::MAX >> 1));
    assert!(too_many_writers((usize::MAX >> 1) + 1));
}

#[test]
fn of_two_writers_one_can_go() {
    for count in [1, 2, usize::MAX >> 1] {
        assert!(!too_many_writers(count));
        assert!(!last_writer(count + 1));
        assert_eq!(last_writer(count), count == 1);
    }
}

#[test]
fn fused_versions_are_closed_together() {
    for (a, b, closed) in [(0, 0, false), (1, 0, false), (0, 1, false), (1, 1, true)] {
        let version = FusedVersion {
            a: Version(a),
            b: Version(b),
        };
        assert_eq!(version.closed(), closed);
        let copy = version.clone();
        assert_eq!((copy.a, copy.b), (Version(a), Version(b)));
    }
}
