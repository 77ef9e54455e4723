//! The random source of the town: a xorshift generator whose seed fixes every
//! draw.

use vstd::prelude::*;

verus! {

/// The number that follows another in the sequence of draws.
pub open spec fn next_draw(x: u64) -> u64 {
    let a = x ^ (x << 13u64);
    let b = a ^ (a >> 7u64);
    b ^ (b << 17u64)
}

/// A source of draws.
#[derive(Debug, Clone, Copy, PartialEq, Eq, Structural)]
pub struct Rng(pub u64);

impl Rng {
    /// The source of a seed; the seed 0, which would draw nothing but 0,
    /// counts as 1.
    pub fn new(seed: u64) -> (r: Rng)
        ensures
            r.0 == if seed == 0 {
                1
            } else {
                seed
            },
            r.0 != 0,
    {
        if seed == 0 {
            Rng(1)
        } else {
            Rng(seed)
        }
    }

    /// The next draw.
    pub fn next_u64(&mut self) -> (r: u64)
        ensures
            r == next_draw(old(self).0),
            final(self).0 == r,
    {
        let x: u64 = self.0;
        let a: u64 = x ^ (x << 13u64);
        let b: u64 = a ^ (a >> 7u64);
        let c: u64 = b ^ (b << 17u64);
        self.0 = c;
        c
    }

    /// A number below `n`; nothing is drawn for 0.
    pub fn usize(&mut self, n: usize) -> (r: usize)
        ensures
            n == 0 ==> r == 0 && final(self).0 == old(self).0,
            n > 0 ==> r == next_draw(old(self).0) % (n as u64) && final(self).0 == next_draw(
                old(self).0,
            ),
            n > 0 ==> r < n,
    {
        if n == 0 {
            0
        } else {
            let x: u64 = self.next_u64();
            (x % n as u64) as usize
        }
    }
}

/// A source never gets stuck at 0.
pub proof fn law_draws_stay_alive(x: u64)
    requires
        x != 0,
    ensures
        next_draw(x) != 0,
{
    let a = x ^ (x << 13u64);
    assert(x != 0 ==> (x ^ (x << 13u64)) != 0) by (bit_vector);
    let b = a ^ (a >> 7u64);
    assert(a != 0 ==> (a ^ (a >> 7u64)) != 0) by (bit_vector);
    assert(b != 0 ==> (b ^ (b << 17u64)) != 0) by (bit_vector);
}

} // verus!
