//! The immutable match configuration.

use vstd::prelude::*;
use crate::pipe::Modifier;
use crate::rng::{random_i64_in, random_u64_in};

verus! {

/// A player's score, and a pipe's value.
pub type Score = i64;

/// Bound on the magnitude of the configured value bounds, so that doubling
/// a pipe value and stepping it by one never overflow a `Score`.
pub const VALUE_LIMIT: i64 = 0x2000_0000_0000_0000;

/// Bound on the configured delays, so that the `Slow` modifier can double
/// a collection delay without overflow.
pub const DELAY_LIMIT_MS: u64 = 0x7fff_ffff_ffff_ffff;

/// Everything a match is parameterized over: how many pipes there are, the
/// bounds their values and delays are drawn from and wrap at, what each
/// modifier costs and how many uses it installs, the fixed inspection
/// delay, and the optional wall-clock run duration.
#[derive(Debug, Copy, Clone, PartialEq, Eq, Structural)]
pub struct Config {
    pub reverse_cost: Score,
    pub double_cost: Score,
    pub double_uses: usize,
    pub slow_cost: Score,
    pub slow_uses: usize,
    pub shuffle_cost: Score,
    pub min_cost: Score,
    pub min_uses: usize,
    pub pipe_count: usize,
    pub min_value: Score,
    pub max_value: Score,
    pub min_delay_ms: u64,
    pub max_delay_ms: u64,
    pub pipe_value_delay_ms: u64,
    pub time_to_run_ms: Option<u64>,
}

impl Config {
    /// Well-formedness: each range is non-empty, the value bounds are small
    /// enough that awards and steps cannot overflow, delays can be doubled,
    /// and costs are not negative (a spend check precedes every debit).
    pub open spec fn wf(self) -> bool {
        &&& self.min_value <= self.max_value
        &&& -VALUE_LIMIT < self.min_value
        &&& self.max_value < VALUE_LIMIT
        &&& self.min_delay_ms <= self.max_delay_ms
        &&& self.max_delay_ms <= DELAY_LIMIT_MS
        &&& 0 <= self.slow_cost
        &&& 0 <= self.double_cost
        &&& 0 <= self.min_cost
        &&& 0 <= self.shuffle_cost
        &&& 0 <= self.reverse_cost
    }

    pub open spec fn spec_modifier_cost(self, modifier: Modifier) -> Score {
        match modifier {
            Modifier::Slow => self.slow_cost,
            Modifier::Double => self.double_cost,
            Modifier::Min => self.min_cost,
            Modifier::Shuffle => self.shuffle_cost,
            Modifier::Reverse => self.reverse_cost,
        }
    }

    /// The configured price of applying a modifier kind.
    pub fn modifier_cost(&self, modifier: Modifier) -> (c: Score)
        ensures
            c == self.spec_modifier_cost(modifier),
    {
        match modifier {
            Modifier::Slow => self.slow_cost,
            Modifier::Double => self.double_cost,
            Modifier::Min => self.min_cost,
            Modifier::Shuffle => self.shuffle_cost,
            Modifier::Reverse => self.reverse_cost,
        }
    }

    /// How many uses installing a stacking modifier kind grants; one-shot
    /// kinds install none.
    pub open spec fn spec_modifier_uses(self, modifier: Modifier) -> usize {
        match modifier {
            Modifier::Slow => self.slow_uses,
            Modifier::Double => self.double_uses,
            Modifier::Min => self.min_uses,
            Modifier::Shuffle => 0,
            Modifier::Reverse => 0,
        }
    }

    /// A pipe value drawn uniformly from the configured value bounds.
    pub fn random_pipe_value(&self) -> (v: Score)
        requires
            self.wf(),
        ensures
            self.min_value <= v <= self.max_value,
    {
        random_i64_in(self.min_value, self.max_value)
    }

    /// A base delay drawn uniformly from the configured delay bounds.
    pub fn random_pipe_delay(&self) -> (d: u64)
        requires
            self.wf(),
        ensures
            self.min_delay_ms <= d <= self.max_delay_ms,
    {
        random_u64_in(self.min_delay_ms, self.max_delay_ms)
    }
}

} // verus!
