//! Hub configuration: worker core count and the global seed for deterministic RNG.
use vstd::prelude::*;
use vstd::wrapping::u64_specs::wrapping_mul;
use crate::rng::{seeded_state, GameRng};

verus! {

/// Default global seed for deterministic RNG.
pub const DEFAULT_GLOBAL_SEED: u64 = 12345;

/// The multiplier of the seed mixing function.
pub const MIX_MULTIPLIER: u64 = 0x517cc1b727220a95;

/// The seed mixing function: multiply, xor `core_id`, multiply, xor `tick`, multiply,
/// all modulo 2^64.
pub open spec fn mix(base_seed: u64, core_id: u64, tick: u64) -> u64 {
    let h0 = wrapping_mul(base_seed, MIX_MULTIPLIER);
    let h1 = wrapping_mul(h0 ^ core_id, MIX_MULTIPLIER);
    wrapping_mul(h1 ^ tick, MIX_MULTIPLIER)
}

/// Combine a base seed, a core ID and a tick into a seed for that core at that tick.
pub fn hash_seed(base_seed: u64, core_id: u64, tick: u64) -> (r: u64)
    ensures
        r == mix(base_seed, core_id, tick),
{
    let mut h = base_seed;
    h = h.wrapping_mul(MIX_MULTIPLIER);
    h = h ^ core_id;
    h = h.wrapping_mul(MIX_MULTIPLIER);
    h = h ^ tick;
    h = h.wrapping_mul(MIX_MULTIPLIER);
    h
}

/// Number of logical CPUs available to this process (`num_cpus::get`); the crate
/// documents that it is always at least 1. What else it returns depends on the machine.
#[verifier::external_body]
fn available_cpus() -> (r: usize)
    ensures
        r >= 1,
{
    num_cpus::get()
}

/// The maximum number of cores available on this system; at least 1.
pub fn max_cores() -> (r: usize)
    ensures
        r >= 1,
{
    available_cpus()
}

/// `n` clamped to `[lo, hi]`.
pub open spec fn clamp(n: int, lo: int, hi: int) -> int {
    if n < lo {
        lo
    } else if n > hi {
        hi
    } else {
        n
    }
}

/// Clamp a requested core count to `[1, max]`.
pub fn clamp_core_count(n: usize, max: usize) -> (r: usize)
    requires
        max >= 1,
    ensures
        r == clamp(n as int, 1, max as int),
{
    if n < 1 {
        1
    } else if n > max {
        max
    } else {
        n
    }
}

/// Configuration for hub execution.
#[derive(Debug, Clone, Copy)]
pub struct HubConfig {
    core_count: usize,
    global_seed: u64,
}

impl Default for HubConfig {
    /// The default configuration: single core, default seed.
    fn default() -> (r: Self)
        ensures
            r.spec_core_count() == 1,
            r.spec_global_seed() == DEFAULT_GLOBAL_SEED,
    {
        HubConfig { core_count: 1, global_seed: DEFAULT_GLOBAL_SEED }
    }
}

impl HubConfig {
    /// The configured core count.
    pub closed spec fn spec_core_count(&self) -> usize {
        self.core_count
    }

    /// The configured global seed.
    pub closed spec fn spec_global_seed(&self) -> u64 {
        self.global_seed
    }

    /// A configuration with the given core count, clamped to `[1, max_cores()]`, and seed.
    pub fn new(core_count: usize, global_seed: u64) -> (r: Self)
        ensures
            exists|m: usize| m >= 1 && r.spec_core_count() == clamp(core_count as int, 1, m as int),
            r.spec_global_seed() == global_seed,
    {
        let m = max_cores();
        HubConfig { core_count: clamp_core_count(core_count, m), global_seed }
    }

    /// A configuration with the given core count, clamped to `[1, max_cores()]`, and the
    /// default seed.
    pub fn with_core_count(core_count: usize) -> (r: Self)
        ensures
            exists|m: usize| m >= 1 && r.spec_core_count() == clamp(core_count as int, 1, m as int),
            r.spec_global_seed() == DEFAULT_GLOBAL_SEED,
    {
        let m = max_cores();
        HubConfig { core_count: clamp_core_count(core_count, m), global_seed: DEFAULT_GLOBAL_SEED }
    }

    /// A single-core configuration with the given seed.
    pub fn with_seed(global_seed: u64) -> (r: Self)
        ensures
            r.spec_core_count() == 1,
            r.spec_global_seed() == global_seed,
    {
        HubConfig { core_count: 1, global_seed }
    }

    /// The configured core count.
    pub fn core_count(&self) -> (r: usize)
        ensures
            r == self.spec_core_count(),
    {
        self.core_count
    }

    /// Set the core count, clamped to `[1, max_cores()]`.
    pub fn set_core_count(&mut self, n: usize)
        ensures
            exists|m: usize| m >= 1 && final(self).spec_core_count() == clamp(n as int, 1, m as int),
            final(self).spec_global_seed() == old(self).spec_global_seed(),
    {
        let m = max_cores();
        self.core_count = clamp_core_count(n, m);
    }

    /// The global seed.
    pub fn global_seed(&self) -> (r: u64)
        ensures
            r == self.spec_global_seed(),
    {
        self.global_seed
    }

    /// Set the global seed.
    pub fn set_global_seed(&mut self, seed: u64)
        ensures
            final(self).spec_global_seed() == seed,
            final(self).spec_core_count() == old(self).spec_core_count(),
    {
        self.global_seed = seed;
    }

    /// Whether the configuration is single-core.
    pub fn is_single_core(&self) -> (r: bool)
        ensures
            r == (self.spec_core_count() == 1),
    {
        self.core_count == 1
    }

    /// A deterministic generator for a core at a tick, seeded by
    /// `hash_seed(global_seed, core_id, tick)`.
    pub fn create_core_rng(&self, core_id: usize, tick: u64) -> (r: GameRng)
        ensures
            r@ == seeded_state(mix(self.spec_global_seed(), core_id as u64, tick)),
    {
        let seed = hash_seed(self.global_seed, core_id as u64, tick);
        GameRng::new(seed)
    }
}

} // verus!
