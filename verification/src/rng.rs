//! The harness's pseudo-random generator.
//!
//! Replaying an identical edit stream under two engines requires a generator
//! that can be duplicated cheaply and deterministically without disturbing
//! the original's position, so the harness owns a small seed-derived
//! congruential generator whose every step is specified exactly: the whole
//! stream is a mathematical function of the seed sequence.

use vstd::prelude::*;

verus! {

/// Multiplier of the congruential step.
pub const RNG_MUL: u64 = 6364136223846793005;

/// Increment of the congruential step.
pub const RNG_INC: u64 = 1442695040888963407;

/// One step of the generator: the next internal state as a function of the
/// current one.
pub open spec fn rng_next_of(s: u64) -> u64 {
    (((s * RNG_MUL) + RNG_INC) % 0x1_0000_0000_0000_0000) as u64
}

/// Folding one seed word into an accumulated state.
pub open spec fn rng_mix(acc: u64, x: u64) -> u64 {
    rng_next_of((((acc + x) % 0x1_0000_0000_0000_0000) as u64))
}

/// The initial state derived from a seed sequence: the seeds folded in order
/// into state `0`.
pub open spec fn rng_seed_of(seeds: Seq<usize>) -> u64
    decreases seeds.len(),
{
    if seeds.len() == 0 {
        0
    } else {
        rng_mix(rng_seed_of(seeds.drop_last()), seeds.last() as u64)
    }
}

/// A deterministic pseudo-random generator.  It is `Copy`: duplicating it
/// forks the stream, and both copies replay the same future values.
#[derive(Clone, Copy, Debug, PartialEq, Eq, Structural)]
pub struct LabRng {
    pub state: u64,
}

impl View for LabRng {
    type V = u64;

    open spec fn view(&self) -> u64 {
        self.state
    }
}

impl LabRng {
    /// Seeds a generator from a seed sequence; the resulting position is a
    /// function of the sequence alone.
    pub fn from_seeds(seeds: &Vec<usize>) -> (r: LabRng)
        ensures
            r@ == rng_seed_of(seeds@),
    {
        let mut acc: u64 = 0;
        let mut i: usize = 0;
        while i < seeds.len()
            invariant
                i <= seeds.len(),
                acc == rng_seed_of(seeds@.subrange(0, i as int)),
            decreases seeds.len() - i,
        {
            let x: u64 = seeds[i] as u64;
            let sum: u64 = ((acc as u128 + x as u128) % 0x1_0000_0000_0000_0000u128) as u64;
            acc = Self::step(sum);
            proof {
                let pre = seeds@.subrange(0, i as int);
                let post = seeds@.subrange(0, i + 1);
                assert(post.drop_last() =~= pre);
                assert(post.last() == seeds@[i as int]);
            }
            i = i + 1;
        }
        proof {
            assert(seeds@.subrange(0, seeds@.len() as int) =~= seeds@);
        }
        LabRng { state: acc }
    }

    /// One congruential step on a bare state word.
    fn step(s: u64) -> (r: u64)
        ensures
            r == rng_next_of(s),
    {
        proof {
            assert((s as int) * (RNG_MUL as int) + (RNG_INC as int) < 0x1_0000_0000_0000_0000
                * 0x1_0000_0000_0000_0000) by (nonlinear_arith)
                requires
                    s <= 0xFFFF_FFFF_FFFF_FFFFu64,
            ;
        }
        let wide: u128 = (s as u128) * (RNG_MUL as u128) + (RNG_INC as u128);
        (wide % 0x1_0000_0000_0000_0000u128) as u64
    }

    /// Advances the generator by one step and returns the new state word as
    /// the drawn value.
    pub fn next_u64(&mut self) -> (r: u64)
        ensures
            final (self)@ == rng_next_of(old(self)@),
            r == final (self)@,
    {
        self.state = Self::step(self.state);
        self.state
    }

    /// Draws one value and reduces it below `m`.
    pub fn gen_mod(&mut self, m: u64) -> (r: u64)
        requires
            m >= 1,
        ensures
            final (self)@ == rng_next_of(old(self)@),
            r == rng_next_of(old(self)@) % m,
            r < m,
    {
        let v = self.next_u64();
        v % m
    }
}

} // verus!
