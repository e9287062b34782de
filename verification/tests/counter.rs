use shared_state::counter::ExclusiveCounter;
use shared_state::SyncError;

#[test]
fn final_value_is_initial_plus_sum_of_deltas() {
    // Two workers withdrawing from an initial balance of 100000: however
    // the lock serializes them, the final value is the initial value plus
    // the exact sum of the deltas.
    let mut c = ExclusiveCounter::new(100_000);
    assert_eq!(c.apply_delta(-20_000), Ok(()));
    assert_eq!(c.apply_delta(-30_000), Ok(()));
    assert_eq!(c.read(), Ok(50_000));
}

#[test]
fn deltas_commute() {
    // The same deltas in the opposite serialization order end at the
    // same value.
    let mut a = ExclusiveCounter::new(100_000);
    assert_eq!(a.apply_delta(-30_000), Ok(()));
    assert_eq!(a.apply_delta(-20_000), Ok(()));
    let mut b = ExclusiveCounter::new(100_000);
    assert_eq!(b.apply_delta(-20_000), Ok(()));
    assert_eq!(b.apply_delta(-30_000), Ok(()));
    assert_eq!(a.read(), b.read());
}

#[test]
fn negative_and_positive_deltas() {
    let mut c = ExclusiveCounter::new(0);
    assert_eq!(c.apply_delta(7), Ok(()));
    assert_eq!(c.apply_delta(-10), Ok(()));
    assert_eq!(c.apply_delta(3), Ok(()));
    assert_eq!(c.read(), Ok(0));
}

#[test]
fn read_is_idempotent() {
    let mut c = ExclusiveCounter::new(42);
    c.apply_delta(-2).unwrap();
    let first = c.read();
    let second = c.read();
    let third = c.read();
    assert_eq!(first, Ok(40));
    assert_eq!(first, second);
    assert_eq!(second, third);
}

#[test]
fn error_kinds_are_distinct() {
    // Acquisition failure and worker failure are reported as different
    // fatal conditions.
    assert_ne!(SyncError::LockPoisoned, SyncError::WorkerFailed);
}

#[test]
fn poisoned_counter_reports_fatal_condition() {
    let mut c = ExclusiveCounter::new(5);
    c.poison();
    assert_eq!(c.read(), Err(SyncError::LockPoisoned));
    assert_eq!(c.apply_delta(1), Err(SyncError::LockPoisoned));
    // Still poisoned: the condition is never silently repaired.
    assert_eq!(c.read(), Err(SyncError::LockPoisoned));
}
