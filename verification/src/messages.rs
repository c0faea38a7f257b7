//! Wire messages: direct zode-to-zode messages and the Zephyr gossip
//! messages on zone and global topics.
use vstd::prelude::*;
use crate::types::{Block, BlockVote, EpochId, FinalityCertificate, Nullifier, SpendTransaction};

verus! {

/// A direct message between two Zodes, tagged with a topic for routing.
#[derive(Debug, Clone, PartialEq, Eq)]
pub struct DirectMessage {
    pub topic: String,
    pub payload: Vec<u8>,
}

/// Acknowledgement for a direct message (fire-and-forget semantics).
#[derive(Debug, Clone, Copy, PartialEq, Eq)]
pub struct DirectMessageAck {
    pub ok: bool,
}

/// Messages gossiped on zone topics.
#[derive(Debug, Clone, PartialEq, Eq)]
pub enum ZephyrZoneMessage {
    SubmitSpend(SpendTransaction),
    Proposal(Block),
    Vote(BlockVote),
    Reject(SpendReject),
}

/// Messages gossiped on the global topic.
#[derive(Debug, Clone, PartialEq, Eq)]
pub enum ZephyrGlobalMessage {
    Certificate(FinalityCertificate),
    EpochAnnounce(EpochAnnouncement),
}

/// Notification that a spend was rejected.
#[derive(Debug, Clone, Copy, PartialEq, Eq)]
pub struct SpendReject {
    pub nullifier: Nullifier,
    pub reason: RejectReason,
}

/// Why a spend was rejected.
#[derive(Debug, Clone, Copy, PartialEq, Eq)]
pub enum RejectReason {
    InvalidProof,
    DuplicateNullifier,
    InvalidCommitment,
}

/// Announcement of a new epoch.
#[derive(Debug, Clone, Copy, PartialEq, Eq)]
pub struct EpochAnnouncement {
    pub epoch: EpochId,
    pub randomness_seed: [u8; 32],
    pub start_time_ms: u64,
}

} // verus!
