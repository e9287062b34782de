//! Fork-join partitioned sorting: a fixed workload split once into
//! contiguous, nearly equal, exclusively owned partitions; each partition
//! is sorted independently and the results are rejoined in their original
//! partition order. The concatenation is sorted within each partition but
//! deliberately not across partition boundaries: the pattern benchmarks
//! raw per-partition sort cost, not a complete parallel merge sort.

use vstd::prelude::*;
use vstd::pervasive::VecAdditionalExecFns;

verus! {

/// Ascending order over a whole sequence.
pub open spec fn sorted_seq(s: Seq<u64>) -> bool {
    forall|i: int, j: int| 0 <= i < j < s.len() ==> s[i] <= s[j]
}

/// How many elements partition `i` of `count` receives when `len`
/// elements are split as evenly as contiguity allows: the first
/// `len % count` partitions hold one element more than `len / count`.
pub open spec fn part_size(len: int, count: int, i: int) -> int
    recommends
        1 <= count,
{
    len / count + if i < len % count {
        1int
    } else {
        0int
    }
}

/// Where partition `i` begins: the sum of the sizes of the partitions
/// before it.
pub open spec fn part_start(len: int, count: int, i: int) -> int
    recommends
        1 <= count,
    decreases i,
{
    if i <= 0 {
        0
    } else {
        part_start(len, count, i - 1) + part_size(len, count, i - 1)
    }
}

/// Partition `p` of a sequence split into `count` contiguous parts.
pub open spec fn partition_of(s: Seq<u64>, count: int, p: int) -> Seq<u64>
    recommends
        1 <= count,
        0 <= p < count,
{
    s.subrange(part_start(s.len() as int, count, p), part_start(s.len() as int, count, p + 1))
}

/// The split is nearly equal: any two partitions differ in size by at
/// most one element.
pub proof fn lemma_partition_sizes_nearly_equal(len: int, count: int, i: int, j: int)
    requires
        1 <= count,
        0 <= len,
        0 <= i < count,
        0 <= j < count,
    ensures
        part_size(len, count, i) - part_size(len, count, j) <= 1,
        part_size(len, count, j) - part_size(len, count, i) <= 1,
{
}

/// The closed form of `part_start`.
proof fn lemma_part_start_closed(len: int, count: int, i: int)
    requires
        1 <= count,
        0 <= len,
        0 <= i,
    ensures
        part_start(len, count, i) == i * (len / count) + if i <= len % count {
            i
        } else {
            len % count
        },
    decreases i,
{
    if i > 0 {
        lemma_part_start_closed(len, count, i - 1);
        let quot = len / count;
        let rem = len % count;
        assert(i * quot == (i - 1) * quot + quot) by (nonlinear_arith);
        assert(part_start(len, count, i) == part_start(len, count, i - 1) + quot + if i - 1
            < rem {
            1int
        } else {
            0int
        });
        if i - 1 < rem {
            assert(part_start(len, count, i - 1) == (i - 1) * quot + (i - 1));
            assert(part_start(len, count, i) == i * quot + i);
        } else {
            assert(part_start(len, count, i - 1) == (i - 1) * quot + rem);
            assert(part_start(len, count, i) == i * quot + rem);
        }
    } else {
        assert(i * (len / count) == 0) by (nonlinear_arith)
            requires
                i == 0,
        ;
    }
}

/// The partitions cover the whole input: the last one ends at `len`.
proof fn lemma_part_start_total(len: int, count: int)
    requires
        1 <= count,
        0 <= len,
    ensures
        part_start(len, count, count) == len,
{
    lemma_part_start_closed(len, count, count);
    vstd::arithmetic::div_mod::lemma_fundamental_div_mod(len, count);
}

/// Partition sizes are never negative, so the starts are nondecreasing.
proof fn lemma_part_size_nonneg(len: int, count: int, i: int)
    requires
        1 <= count,
        0 <= len,
    ensures
        0 <= part_size(len, count, i),
{
    assert(0 <= len / count) by (nonlinear_arith)
        requires
            1 <= count,
            0 <= len,
    ;
}

/// `part_start` is monotone in the partition index.
proof fn lemma_part_start_monotone(len: int, count: int, i: int, j: int)
    requires
        1 <= count,
        0 <= len,
        0 <= i <= j,
    ensures
        part_start(len, count, i) <= part_start(len, count, j),
    decreases j - i,
{
    if i < j {
        lemma_part_size_nonneg(len, count, j - 1);
        lemma_part_start_monotone(len, count, i, j - 1);
    }
}

/// Every partition start lies inside the input.
proof fn lemma_part_start_in_range(len: int, count: int, i: int)
    requires
        1 <= count,
        0 <= len,
        0 <= i <= count,
    ensures
        0 <= part_start(len, count, i) <= len,
{
    lemma_part_start_monotone(len, count, 0, i);
    lemma_part_start_monotone(len, count, i, count);
    lemma_part_start_total(len, count);
}

/// Splits `v` into `count` contiguous partitions of nearly equal size, in
/// order: partition `p` is exactly the elements of `v` from
/// `part_start(p)` up to `part_start(p + 1)`.
pub fn split_partitions(v: &Vec<u64>, count: usize) -> (parts: Vec<Vec<u64>>)
    requires
        1 <= count,
    ensures
        parts.len() == count,
        forall|p: int|
            0 <= p < count ==> (#[trigger] parts[p]@) == partition_of(v@, count as int, p),
        forall|p: int|
            0 <= p < count ==> (#[trigger] parts[p]@).len() == part_size(
                v@.len() as int,
                count as int,
                p,
            ),
{
    let len = v.len();
    let base = len / count;
    let rem = len % count;
    let mut parts: Vec<Vec<u64>> = Vec::new();
    let mut start: usize = 0;
    let mut p: usize = 0;
    while p < count
        invariant
            1 <= count,
            p <= count,
            len == v.len(),
            base == len / count,
            rem == len % count,
            parts.len() == p,
            start == part_start(len as int, count as int, p as int),
            start <= len,
            forall|q: int|
                0 <= q < p ==> (#[trigger] parts[q]@) == v@.subrange(
                    part_start(len as int, count as int, q),
                    part_start(len as int, count as int, q + 1),
                ),
        decreases count - p,
    {
        proof {
            lemma_part_start_in_range(len as int, count as int, p as int + 1);
            lemma_part_size_nonneg(len as int, count as int, p as int);
        }
        let size = if p < rem {
            base + 1
        } else {
            base
        };
        assert(start + size == part_start(len as int, count as int, p as int + 1));
        let mut part: Vec<u64> = Vec::new();
        let mut k: usize = 0;
        while k < size
            invariant
                k <= size,
                start + size <= v.len(),
                part@ =~= v@.subrange(start as int, start as int + k as int),
            decreases size - k,
        {
            part.push(v[start + k]);
            k = k + 1;
        }
        assert(part@ =~= v@.subrange(start as int, start as int + size as int));
        parts.push(part);
        start = start + size;
        p = p + 1;
    }
    proof {
        assert(forall|q: int|
            0 <= q < count ==> (#[trigger] parts[q]@) == partition_of(v@, count as int, q));
        assert forall|q: int| 0 <= q < count implies (#[trigger] parts[q]@).len() == part_size(
            len as int,
            count as int,
            q,
        ) by {
            lemma_part_start_in_range(len as int, count as int, q);
            lemma_part_start_in_range(len as int, count as int, q + 1);
            lemma_part_size_nonneg(len as int, count as int, q);
        }
    }
    parts
}

/// Sorts one exclusively owned partition in place, ascending: the result
/// is ordered and holds exactly the same elements as before.
pub fn sort_partition(v: &mut Vec<u64>)
    ensures
        sorted_seq(final(v)@),
        final(v)@.to_multiset() == old(v)@.to_multiset(),
        final(v)@.len() == old(v)@.len(),
{
    let n = v.len();
    if n == 0 {
        return ;
    }
    let mut i: usize = 1;
    while i < n
        invariant
            1 <= i <= n,
            n == v.len(),
            forall|a: int, b: int| 0 <= a < b < i ==> v@[a] <= v@[b],
            v@.to_multiset() == old(v)@.to_multiset(),
        decreases n - i,
    {
        let mut j: usize = i;
        while j > 0 && v[j - 1] > v[j]
            invariant
                j <= i < n,
                n == v.len(),
                v@.to_multiset() == old(v)@.to_multiset(),
                forall|a: int, b: int|
                    0 <= a < b <= i && a != j && b != j ==> v@[a] <= v@[b],
                forall|b: int| j < b <= i ==> v@[j as int] <= v@[b],
            decreases j,
        {
            let x = v[j - 1];
            let y = v[j];
            let ghost s0 = v@;
            v.set(j - 1, y);
            v.set(j, x);
            proof {
                broadcast use vstd::seq_lib::group_to_multiset_ensures;
                broadcast use vstd::multiset::group_multiset_axioms;

                assert(s0[j - 1] == x && s0[j as int] == y);
                assert(s0.contains(x));
                assert(s0.to_multiset().count(x) > 0);
                assert(v@ =~= s0.update(j - 1, y).update(j as int, x));
                assert(s0.update(j - 1, y).to_multiset() == s0.to_multiset().insert(y).remove(
                    x,
                ));
                assert(s0.update(j - 1, y)[j as int] == y);
                assert(v@.to_multiset() == s0.update(j - 1, y).to_multiset().insert(x).remove(
                    y,
                ));
                assert(v@.to_multiset() =~= s0.to_multiset());
            }
            j = j - 1;
        }
        i = i + 1;
    }
}

/// Appends every element of `part`, in order, to `r`.
fn append_all(r: &mut Vec<u64>, part: &Vec<u64>)
    ensures
        final(r)@ == old(r)@ + part@,
{
    let mut k: usize = 0;
    while k < part.len()
        invariant
            k <= part.len(),
            r@ =~= old(r)@ + part@.take(k as int),
        decreases part.len() - k,
    {
        r.push(part[k]);
        k = k + 1;
    }
    assert(r@ =~= old(r)@ + part@);
}

/// Splits `v` into `partition_count` contiguous, nearly equal partitions,
/// sorts each partition independently, and rejoins them in their original
/// order. Each partition of the result is sorted ascending and holds
/// exactly the elements of the corresponding partition of the input; no
/// ordering is promised across partition boundaries, by design.
pub fn sort_parallel(v: Vec<u64>, partition_count: usize) -> (r: Vec<u64>)
    requires
        1 <= partition_count,
    ensures
        r.len() == v.len(),
        r@.to_multiset() == v@.to_multiset(),
        forall|p: int|
            0 <= p < partition_count ==> sorted_seq(
                #[trigger] partition_of(r@, partition_count as int, p),
            ),
        forall|p: int|
            0 <= p < partition_count ==> (#[trigger] partition_of(
                r@,
                partition_count as int,
                p,
            )).to_multiset() == partition_of(v@, partition_count as int, p).to_multiset(),
{
    let count = partition_count;
    let ghost len = v@.len() as int;
    let mut parts = split_partitions(&v, count);
    let mut r: Vec<u64> = Vec::new();
    let mut p: usize = 0;
    proof {
        assert(r@ =~= v@.subrange(0, 0));
    }
    while p < count
        invariant
            1 <= count,
            p <= count,
            len == v@.len(),
            parts.len() == count - p,
            r@.len() == part_start(len, count as int, p as int),
            r@.to_multiset() == v@.subrange(0, part_start(len, count as int, p as int)).to_multiset(),
            forall|q: int|
                0 <= q < parts.len() ==> (#[trigger] parts[q]@) == partition_of(
                    v@,
                    count as int,
                    p + q,
                ),
            forall|q: int|
                0 <= q < p ==> sorted_seq(
                    #[trigger] r@.subrange(
                        part_start(len, count as int, q),
                        part_start(len, count as int, q + 1),
                    ),
                ),
            forall|q: int|
                0 <= q < p ==> (#[trigger] r@.subrange(
                    part_start(len, count as int, q),
                    part_start(len, count as int, q + 1),
                )).to_multiset() == partition_of(v@, count as int, q).to_multiset(),
        decreases count - p,
    {
        let mut part = parts.remove(0);
        sort_partition(&mut part);
        let ghost r0 = r@;
        append_all(&mut r, &part);
        proof {
            lemma_part_start_in_range(len, count as int, p as int);
            lemma_part_start_in_range(len, count as int, p as int + 1);
            assert(part@.len() == part_start(len, count as int, p as int + 1) - part_start(
                len,
                count as int,
                p as int,
            ));
            assert forall|q: int| 0 <= q < p + 1 implies (#[trigger] r@.subrange(
                part_start(len, count as int, q),
                part_start(len, count as int, q + 1),
            )) == if q < p {
                r0.subrange(
                    part_start(len, count as int, q),
                    part_start(len, count as int, q + 1),
                )
            } else {
                part@
            } by {
                lemma_part_start_in_range(len, count as int, q);
                lemma_part_start_in_range(len, count as int, q + 1);
                if q < p {
                    lemma_part_start_monotone(len, count as int, q + 1, p as int);
                    assert(r@.subrange(
                        part_start(len, count as int, q),
                        part_start(len, count as int, q + 1),
                    ) =~= r0.subrange(
                        part_start(len, count as int, q),
                        part_start(len, count as int, q + 1),
                    ));
                } else {
                    assert(r@.subrange(
                        part_start(len, count as int, q),
                        part_start(len, count as int, q + 1),
                    ) =~= part@);
                }
            }
            vstd::seq_lib::lemma_multiset_commutative(r0, part@);
            assert(v@.subrange(0, part_start(len, count as int, p as int + 1)) =~= v@.subrange(
                0,
                part_start(len, count as int, p as int),
            ) + v@.subrange(
                part_start(len, count as int, p as int),
                part_start(len, count as int, p as int + 1),
            ));
            vstd::seq_lib::lemma_multiset_commutative(
                v@.subrange(0, part_start(len, count as int, p as int)),
                v@.subrange(
                    part_start(len, count as int, p as int),
                    part_start(len, count as int, p as int + 1),
                ),
            );
        }
        p = p + 1;
    }
    proof {
        lemma_part_start_total(len, count as int);
        assert(v@.subrange(0, len) =~= v@);
        assert(forall|q: int|
            0 <= q < count ==> (#[trigger] partition_of(r@, count as int, q)) == r@.subrange(
                part_start(len, count as int, q),
                part_start(len, count as int, q + 1),
            ));
    }
    r
}

} // verus!
