//! Configuration of the Zephyr service.
use vstd::prelude::*;

verus! {

/// Parameters of the Zephyr consensus service.
#[derive(Debug, Clone, Copy, PartialEq, Eq)]
pub struct ZephyrConfig {
    /// Number of zones the global pool is split into.
    pub total_zones: u32,
    /// Number of validators sampled into each zone committee.
    pub committee_size: usize,
    /// Distinct votes needed to certify a block.
    pub quorum_threshold: usize,
    /// Maximum number of spends in one block.
    pub max_block_size: usize,
    /// Length of an epoch in milliseconds.
    pub epoch_duration_ms: u64,
    /// Round-timer ticks without quorum before a round times out.
    pub round_timeout_ticks: u32,
}

impl Default for ZephyrConfig {
    fn default() -> (r: Self)
        ensures
            r.total_zones == 4,
            r.committee_size == 5,
            r.quorum_threshold == 4,
            r.max_block_size == 64,
            r.epoch_duration_ms == 120_000,
            r.round_timeout_ticks == 10,
    {
        ZephyrConfig {
            total_zones: 4,
            committee_size: 5,
            quorum_threshold: 4,
            max_block_size: 64,
            epoch_duration_ms: 120_000,
            round_timeout_ticks: 10,
        }
    }
}

} // verus!
