//! Seedable pseudo-random source.
//!
//! The engine must be reproducible bit-for-bit across runs and platforms for
//! a fixed seed, so the generator is implemented here as a pure state machine
//! (the SplitMix64 construction) rather than delegated to a platform source.
//! Every draw is pinned exactly by its contract, which is what makes the
//! engine's determinism provable.

use vstd::prelude::*;

verus! {

/// Denominator for all probability parameters: a chance `c` means the event
/// fires with probability `c / PROB_DENOM`, so `PROB_DENOM` itself is
/// certainty and `0` is impossibility.
pub const PROB_DENOM: u32 = 10000;

/// Additive constant by which the generator state advances on each draw.
pub const STATE_INCREMENT: u64 = 0x9E3779B97F4A7C15;

/// First multiplier of the output mixing function.
pub const MIX_MULT_1: u64 = 0xBF58476D1CE4E5B9;

/// Second multiplier of the output mixing function.
pub const MIX_MULT_2: u64 = 0x94D049BB133111EB;

/// State of the generator after one draw from state `s`.
pub open spec fn spec_state_after(s: u64) -> u64 {
    vstd::wrapping::u64_specs::wrapping_add(s, STATE_INCREMENT)
}

/// Output mixing function applied to an advanced state. Opaque: callers
/// never reason about the mixed bits, only about equality of draws.
#[verifier::opaque]
pub open spec fn spec_mix(z0: u64) -> u64 {
    let z1 = vstd::wrapping::u64_specs::wrapping_mul(z0 ^ (z0 >> 30u64), MIX_MULT_1);
    let z2 = vstd::wrapping::u64_specs::wrapping_mul(z1 ^ (z1 >> 27u64), MIX_MULT_2);
    z2 ^ (z2 >> 31u64)
}

/// The raw 64-bit value produced by one draw from state `s`.
pub open spec fn spec_output(s: u64) -> u64 {
    spec_mix(spec_state_after(s))
}

/// The boolean produced by one draw from state `s` with the given chance
/// (out of `PROB_DENOM`).
pub open spec fn spec_bool_draw(s: u64, chance: u32) -> bool {
    spec_output(s) % (PROB_DENOM as u64) < chance as u64
}

/// The uniform choice in `[0, n)` produced by one draw from state `s`.
pub open spec fn spec_uniform_draw(s: u64, n: u32) -> u32 {
    (spec_output(s) % (n as u64)) as u32
}

/// A uniform draw among `n` alternatives stays below `n`.
pub proof fn lemma_uniform_draw_lt(s: u64, n: u32)
    requires
        1 <= n,
    ensures
        spec_uniform_draw(s, n) < n,
{
}

/// Deterministic seedable pseudo-random generator (SplitMix64).
pub struct StdRng {
    state: u64,
}

impl StdRng {
    /// The current generator state; every future draw is a function of it.
    pub closed spec fn state_spec(&self) -> u64 {
        self.state
    }

    /// Builds a generator whose whole output sequence is determined by `seed`.
    pub fn with_seed(seed: u64) -> (r: StdRng)
        ensures
            r.state_spec() == seed,
    {
        StdRng { state: seed }
    }

    /// Advances the state once and returns the mixed 64-bit output.
    pub fn next_u64(&mut self) -> (r: u64)
        ensures
            final(self).state_spec() == spec_state_after(old(self).state_spec()),
            r == spec_output(old(self).state_spec()),
    {
        proof {
            reveal(spec_mix);
        }
        self.state = self.state.wrapping_add(STATE_INCREMENT);
        let z0 = self.state;
        let z1 = (z0 ^ (z0 >> 30u64)).wrapping_mul(MIX_MULT_1);
        let z2 = (z1 ^ (z1 >> 27u64)).wrapping_mul(MIX_MULT_2);
        z2 ^ (z2 >> 31u64)
    }

    /// Draws a boolean that is true with probability `chance / PROB_DENOM`.
    pub fn random_bool(&mut self, chance: u32) -> (r: bool)
        requires
            chance <= PROB_DENOM,
        ensures
            final(self).state_spec() == spec_state_after(old(self).state_spec()),
            r == spec_bool_draw(old(self).state_spec(), chance),
    {
        let v = self.next_u64();
        v % (PROB_DENOM as u64) < chance as u64
    }

    /// Draws a uniform choice among `n` alternatives, as an index in `[0, n)`.
    pub fn choose_uniform(&mut self, n: u32) -> (r: u32)
        requires
            1 <= n,
        ensures
            final(self).state_spec() == spec_state_after(old(self).state_spec()),
            r == spec_uniform_draw(old(self).state_spec(), n),
            r < n,
    {
        let v = self.next_u64();
        (v % (n as u64)) as u32
    }
}

} // verus!
