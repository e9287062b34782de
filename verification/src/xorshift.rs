//! A xorshift pseudo-random generator and the helper that fills the
//! benchmark workload for the partitioned sort: two vectors drawn from
//! one deterministic stream.

use vstd::prelude::*;

verus! {

/// The state a generator starts from for a given seed.
pub open spec fn seeded_state(seed: u64) -> u64 {
    seed ^ 88172645463325252u64
}

/// One xorshift step: three shift-and-xor rounds.
pub open spec fn xorshift_step(x: u64) -> u64 {
    let a = x ^ (x << 13u64);
    let b = a ^ (a >> 7u64);
    b ^ (b << 17u64)
}

/// The generator state after `k` steps from state `x0`.
pub open spec fn xorshift_iter(x0: u64, k: nat) -> u64
    decreases k,
{
    if k == 0 {
        x0
    } else {
        xorshift_step(xorshift_iter(x0, (k - 1) as nat))
    }
}

/// A xorshift pseudo-random generator: each call to `next` advances the
/// state by one step and returns it, so the whole stream is a function of
/// the seed alone.
pub struct XOR64 {
    x: u64,
}

impl XOR64 {
    /// The current generator state.
    pub closed spec fn state_spec(&self) -> u64 {
        self.x
    }

    /// Creates a generator whose stream is determined by `seed`.
    pub fn new(seed: u64) -> (g: XOR64)
        ensures
            g.state_spec() == seeded_state(seed),
    {
        XOR64 { x: seed ^ 88172645463325252 }
    }

    /// Advances the state one xorshift step and returns it.
    pub fn next(&mut self) -> (r: u64)
        ensures
            final(self).state_spec() == xorshift_step(old(self).state_spec()),
            r == final(self).state_spec(),
    {
        self.x = self.x ^ (self.x << 13);
        self.x = self.x ^ (self.x >> 7);
        self.x = self.x ^ (self.x << 17);
        self.x
    }
}

/// Fills two benchmark vectors of `count` elements each by drawing
/// alternately from one generator seeded with 1234: the first vector
/// holds the odd-numbered draws of the stream, the second the
/// even-numbered ones.
pub fn randomized_vec(count: usize) -> (r: (Vec<u64>, Vec<u64>))
    ensures
        r.0.len() == count,
        r.1.len() == count,
        forall|i: int|
            0 <= i < count ==> r.0[i] == xorshift_iter(seeded_state(1234), (2 * i + 1) as nat),
        forall|i: int|
            0 <= i < count ==> r.1[i] == xorshift_iter(seeded_state(1234), (2 * i + 2) as nat),
{
    let mut v1: Vec<u64> = Vec::new();
    let mut v2: Vec<u64> = Vec::new();
    let mut generator = XOR64::new(1234);
    let mut n: usize = 0;
    while n < count
        invariant
            n <= count,
            v1.len() == n,
            v2.len() == n,
            generator.state_spec() == xorshift_iter(seeded_state(1234), (2 * n) as nat),
            forall|i: int|
                0 <= i < n ==> v1[i] == xorshift_iter(seeded_state(1234), (2 * i + 1) as nat),
            forall|i: int|
                0 <= i < n ==> v2[i] == xorshift_iter(seeded_state(1234), (2 * i + 2) as nat),
        decreases count - n,
    {
        let x1 = generator.next();
        let x2 = generator.next();
        proof {
            assert(xorshift_iter(seeded_state(1234), (2 * n + 1) as nat) == xorshift_step(
                xorshift_iter(seeded_state(1234), (2 * n) as nat),
            ));
            assert(xorshift_iter(seeded_state(1234), (2 * n + 2) as nat) == xorshift_step(
                xorshift_iter(seeded_state(1234), (2 * n + 1) as nat),
            ));
        }
        v1.push(x1);
        v2.push(x2);
        n = n + 1;
    }
    (v1, v2)
}

} // verus!
