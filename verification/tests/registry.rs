use shared_state::registry::SharedRegistry;
use shared_state::SyncError;

#[test]
fn snapshot_returns_exactly_the_installed_generation() {
    let mut reg = SharedRegistry::new();
    let generation = vec![(1u64, 10u64), (2, 20), (5, 50)];
    assert_eq!(reg.replace_all(generation.clone()), Ok(()));
    let snap = reg.read_snapshot().unwrap();
    assert_eq!(snap, generation);
}

#[test]
fn snapshot_of_empty_registry_is_empty() {
    let reg = SharedRegistry::new();
    assert_eq!(reg.read_snapshot().unwrap(), Vec::new());
}

#[test]
fn snapshot_never_mixes_two_generations() {
    // A registry flipping between two known 2-entry states: every
    // snapshot equals one of them entirely.
    let gen_a = vec![(1u64, 100u64), (2, 200)];
    let gen_b = vec![(3u64, 300u64), (4, 400)];
    let mut reg = SharedRegistry::new();
    for round in 0..8 {
        let generation = if round % 2 == 0 { gen_a.clone() } else { gen_b.clone() };
        reg.replace_all(generation).unwrap();
        let snap = reg.read_snapshot().unwrap();
        assert!(snap == gen_a || snap == gen_b);
        // Strictly between two replacements the snapshot is exactly the
        // last installed generation.
        if round % 2 == 0 {
            assert_eq!(snap, gen_a);
        } else {
            assert_eq!(snap, gen_b);
        }
    }
}

#[test]
fn snapshot_is_idempotent() {
    let mut reg = SharedRegistry::new();
    reg.replace_all(vec![(7u64, 70u64), (9, 90)]).unwrap();
    let s1 = reg.read_snapshot().unwrap();
    let s2 = reg.read_snapshot().unwrap();
    let s3 = reg.read_snapshot().unwrap();
    assert_eq!(s1, s2);
    assert_eq!(s2, s3);
}

#[test]
fn replacement_clears_previous_entries() {
    let mut reg = SharedRegistry::new();
    reg.replace_all(vec![(1u64, 1u64), (2, 2)]).unwrap();
    reg.replace_all(vec![(8u64, 8u64)]).unwrap();
    assert_eq!(reg.read_snapshot().unwrap(), vec![(8u64, 8u64)]);
}

#[test]
fn poisoned_registry_reports_unavailable() {
    let mut reg = SharedRegistry::new();
    reg.replace_all(vec![(1u64, 1u64)]).unwrap();
    reg.poison();
    assert_eq!(reg.read_snapshot(), Err(SyncError::LockPoisoned));
    assert_eq!(reg.replace_all(vec![(2u64, 2u64)]), Err(SyncError::LockPoisoned));
}
