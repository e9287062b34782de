use shared_state::access::AccessState;

#[test]
fn readers_share_access_without_blocking_each_other() {
    // Three readers enter one after another; none is made to wait.
    let s0 = AccessState::initial();
    let s1 = s0.try_acquire_shared().unwrap();
    let s2 = s1.try_acquire_shared().unwrap();
    let s3 = s2.try_acquire_shared().unwrap();
    assert_eq!(s3, AccessState::SharedHeld { readers: 3 });
    // And each can leave at once.
    let s2b = s3.release_shared();
    let s1b = s2b.release_shared();
    let s0b = s1b.release_shared();
    assert_eq!(s0b, AccessState::Idle);
}

#[test]
fn writer_waits_for_all_readers() {
    let held = AccessState::SharedHeld { readers: 2 };
    assert_eq!(held.try_acquire_exclusive(), None);
    let one_left = held.release_shared();
    assert_eq!(one_left.try_acquire_exclusive(), None);
    let idle = one_left.release_shared();
    assert_eq!(idle.try_acquire_exclusive(), Some(AccessState::ExclusiveHeld));
}

#[test]
fn exclusive_holder_excludes_everyone() {
    let excl = AccessState::ExclusiveHeld;
    assert_eq!(excl.try_acquire_shared(), None);
    assert_eq!(excl.try_acquire_exclusive(), None);
    assert_eq!(excl.release_exclusive(), AccessState::Idle);
}
