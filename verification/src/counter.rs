//! An exclusively locked counter: a single numeric value that workers
//! mutate by applying deltas, every access fully serialized.

use vstd::prelude::*;
use crate::SyncError;

verus! {

/// A numeric value guarded by mutual exclusion. Every access, read or
/// write, requires exclusive acquisition, so applied deltas are fully
/// serialized and the final value is the initial value plus the sum of
/// all applied deltas.
///
/// Poisoning is tracked as an explicit flag: when a holder of exclusive
/// access fails mid-critical-section the driver marks the counter
/// poisoned, and every later acquisition reports `LockPoisoned` instead
/// of returning a possibly corrupt value.
pub struct ExclusiveCounter {
    value: i64,
    poisoned: bool,
}

impl ExclusiveCounter {
    /// The protected value.
    pub closed spec fn value_spec(&self) -> int {
        self.value as int
    }

    /// Whether a prior holder failed while holding exclusive access.
    pub closed spec fn is_poisoned(&self) -> bool {
        self.poisoned
    }

    /// Creates a counter holding `initial`, not poisoned.
    pub fn new(initial: i64) -> (c: ExclusiveCounter)
        ensures
            c.value_spec() == initial,
            !c.is_poisoned(),
    {
        ExclusiveCounter { value: initial, poisoned: false }
    }

    /// Acquires exclusive access, adds `amount` (which may be negative) to
    /// the value, releases. Succeeds exactly when the counter is not
    /// poisoned; a poisoned counter is left untouched and the fatal
    /// condition is propagated to the caller.
    pub fn apply_delta(&mut self, amount: i64) -> (r: Result<(), SyncError>)
        requires
            !old(self).is_poisoned() ==> i64::MIN <= old(self).value_spec() + amount
                <= i64::MAX,
        ensures
            old(self).is_poisoned() ==> r == Err::<(), SyncError>(SyncError::LockPoisoned)
                && *final(self) == *old(self),
            !old(self).is_poisoned() ==> r == Ok::<(), SyncError>(())
                && final(self).value_spec() == old(self).value_spec() + amount
                && !final(self).is_poisoned(),
    {
        if self.poisoned {
            Err(SyncError::LockPoisoned)
        } else {
            self.value = self.value + amount;
            Ok(())
        }
    }

    /// Acquires exclusive access (this structure offers no shared-read
    /// mode), returns a copy of the current value, releases. Reports
    /// `LockPoisoned` instead of reading a possibly corrupt value.
    pub fn read(&self) -> (r: Result<i64, SyncError>)
        ensures
            self.is_poisoned() ==> r == Err::<i64, SyncError>(SyncError::LockPoisoned),
            !self.is_poisoned() ==> (r matches Ok(v) && v == self.value_spec()),
    {
        if self.poisoned {
            Err(SyncError::LockPoisoned)
        } else {
            Ok(self.value)
        }
    }

    /// Marks the counter poisoned: called by the driver when a worker
    /// holding exclusive access terminated abnormally. The stored value is
    /// kept but never again handed out.
    pub fn poison(&mut self)
        ensures
            final(self).is_poisoned(),
            final(self).value_spec() == old(self).value_spec(),
    {
        self.poisoned = true;
    }
}

/// Reading is idempotent: any number of `read` calls without an
/// intervening write return the same result, because a read is fully
/// determined by the counter's state, which it does not change.
pub proof fn lemma_read_idempotent(
    c: ExclusiveCounter,
    r1: Result<i64, SyncError>,
    r2: Result<i64, SyncError>,
)
    requires
        c.is_poisoned() ==> r1 == Err::<i64, SyncError>(SyncError::LockPoisoned),
        !c.is_poisoned() ==> (r1 matches Ok(v) && v == c.value_spec()),
        c.is_poisoned() ==> r2 == Err::<i64, SyncError>(SyncError::LockPoisoned),
        !c.is_poisoned() ==> (r2 matches Ok(v) && v == c.value_spec()),
    ensures
        r1 == r2,
{
}

/// The algebraic sum of a sequence of deltas.
pub open spec fn sum_of(deltas: Seq<int>) -> int
    decreases deltas.len(),
{
    if deltas.len() == 0 {
        0
    } else {
        sum_of(deltas.drop_last()) + deltas.last()
    }
}

/// The value after a fully serialized run of `deltas` against `initial`:
/// each delta applied atomically, in order, with no interleaving.
pub open spec fn run_deltas(initial: int, deltas: Seq<int>) -> int
    decreases deltas.len(),
{
    if deltas.len() == 0 {
        initial
    } else {
        run_deltas(initial, deltas.drop_last()) + deltas.last()
    }
}

/// No update is lost: a serialized run of any sequence of deltas ends at
/// exactly the initial value plus their sum.
pub proof fn lemma_run_deltas_sums(initial: int, deltas: Seq<int>)
    ensures
        run_deltas(initial, deltas) == initial + sum_of(deltas),
    decreases deltas.len(),
{
    if deltas.len() > 0 {
        lemma_run_deltas_sums(initial, deltas.drop_last());
    }
}

/// Removing one delta removes exactly its contribution from the sum.
proof fn lemma_sum_of_remove(s: Seq<int>, j: int)
    requires
        0 <= j < s.len(),
    ensures
        sum_of(s.remove(j)) == sum_of(s) - s[j],
    decreases s.len(),
{
    if j == s.len() - 1 {
        assert(s.remove(j) =~= s.drop_last());
    } else {
        assert(s.remove(j).drop_last() =~= s.drop_last().remove(j));
        lemma_sum_of_remove(s.drop_last(), j);
    }
}

/// The sum of a sequence of deltas depends only on which deltas occur, not
/// on the order they were serialized in.
pub proof fn lemma_sum_of_permutation(s1: Seq<int>, s2: Seq<int>)
    requires
        s1.to_multiset() == s2.to_multiset(),
    ensures
        sum_of(s1) == sum_of(s2),
    decreases s1.len(),
{
    broadcast use vstd::seq_lib::group_to_multiset_ensures;
    broadcast use vstd::multiset::group_multiset_axioms;

    if s1.len() == 0 {
        assert(s2.len() == s2.to_multiset().len());
    } else {
        let a = s1.last();
        assert(s1 =~= s1.drop_last().push(a));
        assert(s1.to_multiset() =~= s1.drop_last().to_multiset().insert(a));
        assert(s2.to_multiset().count(a) > 0);
        assert(s2.contains(a));
        let j = choose|j: int| 0 <= j < s2.len() && s2[j] == a;
        assert(s2.remove(j).to_multiset() =~= s1.drop_last().to_multiset());
        lemma_sum_of_remove(s2, j);
        lemma_sum_of_permutation(s1.drop_last(), s2.remove(j));
    }
}

/// For any number of concurrent workers, the lock serializes their deltas
/// into some order; whatever that order turned out to be, the final value
/// is the same: the initial value plus the exact sum of the deltas.
pub proof fn lemma_interleaving_independent(initial: int, order1: Seq<int>, order2: Seq<int>)
    requires
        order1.to_multiset() == order2.to_multiset(),
    ensures
        run_deltas(initial, order1) == run_deltas(initial, order2),
        run_deltas(initial, order1) == initial + sum_of(order1),
{
    lemma_run_deltas_sums(initial, order1);
    lemma_run_deltas_sums(initial, order2);
    lemma_sum_of_permutation(order1, order2);
}

} // verus!
