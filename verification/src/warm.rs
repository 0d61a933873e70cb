//! Warming the selected local engine ahead of the first dictation: when to
//! warm, and which warm result still counts.

use vstd::prelude::*;
use crate::stt::{needs_warm, provider_needs_warm, Provider};

verus! {

/// Whether to warm now: the provider is a local engine worth warming, it is
/// installed (no download would start), and no recording is running.
pub fn should_warm(provider: Provider, installed: bool, recording: bool) -> (r: bool)
    ensures
        r == (needs_warm(provider) && installed && !recording),
{
    provider_needs_warm(provider) && installed && !recording
}

/// The warm generations: each warm request takes the next one, and only the
/// latest may report its result.
pub struct WarmTracker {
    pub generation: u64,
    pub warming_now: Option<Provider>,
}

impl WarmTracker {
    /// No warm requested yet.
    pub fn new() -> (t: Self)
        ensures
            t.generation == 0,
            t.warming_now is None,
    {
        WarmTracker { generation: 0, warming_now: None }
    }

    /// Start warming `provider`; returns this warm's generation.
    pub fn begin(&mut self, provider: Provider) -> (gen: u64)
        ensures
            gen == next_generation(old(self).generation),
            final(self).generation == gen,
            final(self).warming_now == Some(provider),
    {
        let gen = if self.generation == u64::MAX { 0 } else { self.generation + 1 };
        self.generation = gen;
        self.warming_now = Some(provider);
        gen
    }

    /// A warm of generation `gen` finished: it reports (and clears the
    /// warming marker) only if no newer warm started since.
    pub fn finish(&mut self, gen: u64) -> (report: bool)
        ensures
            report == (gen == old(self).generation),
            report ==> final(self).warming_now is None,
            !report ==> final(self).warming_now == old(self).warming_now,
            final(self).generation == old(self).generation,
    {
        if gen != self.generation {
            return false;
        }
        self.warming_now = None;
        true
    }

    /// The provider being warmed, if any.
    pub fn current_warming(&self) -> (p: Option<Provider>)
        ensures
            p == self.warming_now,
    {
        self.warming_now
    }
}

/// The generation after `g`.
pub open spec fn next_generation(g: u64) -> u64 {
    if g == u64::MAX { 0 } else { (g + 1) as u64 }
}

/// A newer warm request supersedes an older one: after two requests, the
/// first one's result is not reported.
pub proof fn law_newer_warm_supersedes(g0: u64)
    ensures
        next_generation(g0) != next_generation(next_generation(g0)),
{
}

} // verus!
