//! The sampler behind the wobble operator and the probabilistic statement.
//!
//! The state is a value threaded through the executor and advances by a
//! fixed mixing function, so every draw is pinned by the contracts; true
//! unpredictability comes only from the seed, which the host draws from the
//! process entropy source.

use vstd::prelude::*;
use vstd::wrapping::u64_specs;

verus! {

/// The state after one advance of the mixing sequence.
pub open spec fn mix_state(s: u64) -> u64 {
    u64_specs::wrapping_add(s, 0x9e3779b97f4a7c15)
}

/// The output drawn from an advanced state.
pub open spec fn mix_out(s: u64) -> u64 {
    let z1 = u64_specs::wrapping_mul(s ^ (s >> 30), 0xbf58476d1ce4e5b9);
    let z2 = u64_specs::wrapping_mul(z1 ^ (z1 >> 27), 0x94d049bb133111eb);
    z2 ^ (z2 >> 31)
}

/// The sampler: advanced on every draw, seeded by the host.
#[derive(Clone, Copy, Debug)]
pub struct Rng {
    pub state: u64,
}

impl Rng {
    pub fn new(seed: u64) -> (r: Rng)
        ensures
            r.state == seed,
    {
        Rng { state: seed }
    }

    /// A sampler seeded from the process entropy source: the one
    /// unpredictable input of a run.
    pub fn from_entropy() -> Rng {
        Rng { state: os_entropy() }
    }

    /// One draw: advances the state and returns the mixed output.
    pub fn next_u64(&mut self) -> (r: u64)
        ensures
            final(self).state == mix_state(old(self).state),
            r == mix_out(final(self).state),
    {
        self.state = self.state.wrapping_add(0x9e3779b97f4a7c15);
        let s = self.state;
        let z1 = (s ^ (s >> 30)).wrapping_mul(0xbf58476d1ce4e5b9);
        let z2 = (z1 ^ (z1 >> 27)).wrapping_mul(0x94d049bb133111eb);
        z2 ^ (z2 >> 31)
    }
}

/// Relies on rand's `random`: one draw from the thread's entropy source.
/// Nothing is promised of the value.
#[verifier::external_body]
pub fn os_entropy() -> u64 {
    rand::random::<u64>()
}

} // verus!
