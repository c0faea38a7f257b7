//! The per-zone consensus state machine.
//!
//! Each zone the validator is assigned to gets an independent
//! [`ZoneConsensus`]. It tracks the current round, collects votes, and
//! coordinates proposal and certification. `height` is a monotonic per-zone
//! counter that is not reset across epochs.
use vstd::prelude::*;
use crate::bytes::{bytes32_eq, is_zero_hash, zero_hash};
use crate::config::ZephyrConfig;
use crate::consensus::block::{build_block, is_built_block, BlockParams};
use crate::consensus::leader::{leader_for_round, leader_index};
use crate::consensus::vote::{
    builder_wf, spec_add_vote, spec_clear_votes, spec_new_builder, spec_retain_block, votes_for,
    BuilderModel, CertificateBuilder,
};
use crate::hexcode::{hex_encode, hex_spec};
use crate::types::{
    copy_validators, opt_cert_model, spends_model, validators_model, Block, BlockModel, BlockVote,
    CertificateModel, EpochId, FinalityCertificate, SpendModel, SpendTransaction, ValidatorInfo,
    ValidatorModel, VoteModel, ZoneId,
};

verus! {

/// Proposal rebroadcasts allowed per round after the first broadcast.
pub const MAX_PROPOSAL_REBROADCASTS: u32 = 5;

/// Successful rounds that cancel one recorded timeout.
pub const STALL_DECAY_SUCCESSES: u32 = 1;

/// Ticks during which a fresh engine does not propose.
pub const WARMUP_TICKS: u32 = 30;

/// Actions the consensus engine requests the caller to perform.
#[derive(Debug)]
pub enum ConsensusAction {
    BroadcastProposal(Block),
    BroadcastVote(BlockVote),
    BroadcastCertificate(FinalityCertificate),
}

/// Model of a [`ConsensusAction`].
pub enum ActionModel {
    Proposal(BlockModel),
    Vote(VoteModel),
    Certificate(CertificateModel),
}

impl View for ConsensusAction {
    type V = ActionModel;

    open spec fn view(&self) -> ActionModel {
        match self {
            ConsensusAction::BroadcastProposal(b) => ActionModel::Proposal(b@),
            ConsensusAction::BroadcastVote(v) => ActionModel::Vote(v@),
            ConsensusAction::BroadcastCertificate(c) => ActionModel::Certificate(c@),
        }
    }
}

/// Model of an optional action.
pub open spec fn opt_action(a: Option<ConsensusAction>) -> Option<ActionModel> {
    match a {
        Some(a) => Some(a@),
        None => None,
    }
}

/// Model of an optional block.
pub open spec fn opt_block(b: Option<Block>) -> Option<BlockModel> {
    match b {
        Some(b) => Some(b@),
        None => None,
    }
}

/// Model of a [`ZoneConsensus`].
pub struct ZoneState {
    pub zone_id: ZoneId,
    pub epoch: EpochId,
    pub round: u64,
    pub height: u64,
    pub committee: Seq<ValidatorModel>,
    pub my_validator_id: [u8; 32],
    pub votes: BuilderModel,
    pub parent_hash: [u8; 32],
    pub config: ZephyrConfig,
    pub pending_proposal: Option<BlockModel>,
    pub rebroadcast_count: u32,
    pub ticks_in_round: u32,
    pub consecutive_timeouts: u32,
    pub consecutive_successes: u32,
    pub proposal_seen: bool,
    pub voted_block_hash: Option<[u8; 32]>,
    pub warmup_ticks: u32,
    pub force_adopt_next_cert: bool,
    pub fork_recovery_used: bool,
    pub node_id: usize,
}

/// Whether `id` belongs to the committee.
pub open spec fn in_committee(c: Seq<ValidatorModel>, id: [u8; 32]) -> bool {
    exists|i: int| 0 <= i < c.len() && c[i].validator_id == id
}

/// Whether this node leads the current round.
pub open spec fn spec_is_leader(s: ZoneState) -> bool {
    s.committee.len() > 0 && s.committee[leader_index(s.committee.len(), s.epoch, s.round)].validator_id
        == s.my_validator_id
}

/// The id of the current round's leader.
pub open spec fn spec_leader_id(s: ZoneState) -> [u8; 32] {
    s.committee[leader_index(s.committee.len(), s.epoch, s.round)].validator_id
}

/// Round timeout scaled by the recent stall history (at most 4x).
pub open spec fn effective_timeout(timeout_ticks: u32, consecutive_timeouts: u32) -> int {
    timeout_ticks * (1 + if consecutive_timeouts < 3 { consecutive_timeouts as int } else { 3 })
}

/// Internal consistency of an engine state: the vote collector belongs to
/// this zone and epoch and uses the configured quorum, and the bounded
/// counters stay in range.
pub open spec fn state_wf(s: ZoneState) -> bool {
    &&& builder_wf(s.votes)
    &&& s.votes.zone_id == s.zone_id
    &&& s.votes.epoch == s.epoch
    &&& s.votes.quorum == s.config.quorum_threshold
    &&& s.consecutive_successes < STALL_DECAY_SUCCESSES
    &&& s.rebroadcast_count <= MAX_PROPOSAL_REBROADCASTS
    &&& s.pending_proposal is None ==> s.rebroadcast_count == 0
    &&& votes_from_committee(s)
}

/// Every collected vote comes from a member of the current committee.
pub open spec fn votes_from_committee(s: ZoneState) -> bool {
    forall|h: [u8; 32], i: int|
        #![trigger s.votes.votes[h][i]]
        s.votes.votes.contains_key(h) && 0 <= i < s.votes.votes[h].len() ==> in_committee(
            s.committee,
            s.votes.votes[h][i].validator_id,
        )
}

/// Initial state of a zone engine. A node that starts from the zero (genesis)
/// hash is armed to adopt the first certificate it sees.
pub open spec fn spec_new(
    zone_id: ZoneId,
    epoch: EpochId,
    committee: Seq<ValidatorModel>,
    my_validator_id: [u8; 32],
    parent_hash: [u8; 32],
    config: ZephyrConfig,
    node_id: usize,
) -> ZoneState {
    ZoneState {
        zone_id,
        epoch,
        round: 0,
        height: 0,
        committee,
        my_validator_id,
        votes: spec_new_builder(zone_id, epoch, config.quorum_threshold),
        parent_hash,
        config,
        pending_proposal: None,
        rebroadcast_count: 0,
        ticks_in_round: 0,
        consecutive_timeouts: 0,
        consecutive_successes: 0,
        proposal_seen: false,
        voted_block_hash: None,
        warmup_ticks: WARMUP_TICKS,
        force_adopt_next_cert: is_zero_hash(parent_hash),
        fork_recovery_used: false,
        node_id,
    }
}

/// One round-timer tick.
pub open spec fn spec_tick(s: ZoneState) -> ZoneState {
    ZoneState {
        ticks_in_round: (s.ticks_in_round + 1) as u32,
        warmup_ticks: if s.warmup_ticks > 0 { (s.warmup_ticks - 1) as u32 } else { 0 },
        ..s
    }
}

/// The round ends without a finalized block: the leader rotates, the
/// pending proposal is dropped, the vote lock is released, and the stall
/// counter grows. `parent_hash` and `height` stay.
pub open spec fn spec_timeout_round(s: ZoneState) -> ZoneState {
    ZoneState {
        round: (s.round + 1) as u64,
        pending_proposal: None,
        rebroadcast_count: 0,
        ticks_in_round: 0,
        consecutive_timeouts: (s.consecutive_timeouts + 1) as u32,
        consecutive_successes: 0,
        proposal_seen: false,
        voted_block_hash: None,
        votes: spec_clear_votes(s.votes),
        ..s
    }
}

/// The transactions given back by a round timeout: those of the abandoned
/// proposal.
pub open spec fn spec_abandoned(s: ZoneState) -> Seq<SpendModel> {
    match s.pending_proposal {
        Some(b) => b.transactions,
        None => Seq::empty(),
    }
}

/// Move to the next round on top of `new_parent_hash`, one block higher.
/// Genuine progress counts towards cancelling a recorded timeout.
pub open spec fn spec_advance(s: ZoneState, new_parent_hash: [u8; 32], genuine: bool) -> ZoneState {
    let cs = s.consecutive_successes + 1;
    let decays = genuine && cs >= STALL_DECAY_SUCCESSES;
    ZoneState {
        parent_hash: new_parent_hash,
        round: (s.round + 1) as u64,
        height: (s.height + 1) as u64,
        pending_proposal: None,
        rebroadcast_count: 0,
        ticks_in_round: 0,
        consecutive_successes: if !genuine {
            s.consecutive_successes
        } else if decays {
            0
        } else {
            cs as u32
        },
        consecutive_timeouts: if decays && s.consecutive_timeouts > 0 {
            (s.consecutive_timeouts - 1) as u32
        } else {
            s.consecutive_timeouts
        },
        proposal_seen: false,
        voted_block_hash: None,
        votes: spec_clear_votes(s.votes),
        ..s
    }
}

/// Whether a proposal passes every guard for voting: no vote yet this
/// round, same zone and epoch, built on our head (or, with fork recovery
/// armed, on another head at our height or above), and proposed by a
/// committee member.
pub open spec fn spec_proposal_ok(s: ZoneState, p: BlockModel) -> bool {
    &&& !s.proposal_seen
    &&& p.header.zone_id == s.zone_id
    &&& p.header.epoch == s.epoch
    &&& (p.header.parent_hash == s.parent_hash || (s.force_adopt_next_cert && p.header.height >= s.height))
    &&& in_committee(s.committee, p.header.proposer_id)
}

/// State after voting for a valid proposal: a proposal on another head
/// (only possible with fork recovery armed) moves the node onto that head
/// first; then the round's vote is locked to this block and only its votes
/// are kept.
pub open spec fn spec_after_vote(s: ZoneState, p: BlockModel) -> ZoneState {
    let s1 = if p.header.parent_hash != s.parent_hash {
        ZoneState {
            parent_hash: p.header.parent_hash,
            height: p.header.height,
            force_adopt_next_cert: false,
            fork_recovery_used: true,
            ..s
        }
    } else {
        s
    };
    ZoneState {
        proposal_seen: true,
        warmup_ticks: 0,
        voted_block_hash: Some(p.block_hash),
        votes: spec_retain_block(s1.votes, p.block_hash),
        ..s1
    }
}

/// Effect of an incoming vote: votes from outside the committee, or for a
/// block other than the one this node voted for, are dropped; a vote for
/// our pending proposal resets the round timer; the vote is recorded, and a
/// certificate that reaches quorum for a block other than the current head
/// advances the round and is returned.
pub open spec fn spec_receive_vote(s: ZoneState, v: VoteModel) -> (ZoneState, Option<CertificateModel>) {
    if !in_committee(s.committee, v.voter_id) {
        (s, None)
    } else if s.voted_block_hash is Some && v.block_hash != s.voted_block_hash->0 {
        (s, None)
    } else {
        let s1 = if s.pending_proposal is Some && s.pending_proposal->0.block_hash == v.block_hash {
            ZoneState { ticks_in_round: 0, ..s }
        } else {
            s
        };
        let (b, c) = spec_add_vote(s1.votes, v, s1.parent_hash, s1.height);
        let s2 = ZoneState { votes: b, ..s1 };
        match c {
            None => (s2, None),
            Some(cert) => if cert.block_hash == s2.parent_hash {
                (s2, None)
            } else {
                (spec_advance(s2, cert.block_hash, true), Some(cert))
            },
        }
    }
}

/// Effect of applying a received certificate, and whether it was applied.
/// Certificates for other zones or older epochs are refused; the current
/// head counts as applied; a certificate on our head advances the round; one
/// on another head is adopted only with fork recovery armed and only if it
/// does not move the height backwards.
pub open spec fn spec_apply_certificate(s: ZoneState, c: CertificateModel) -> (ZoneState, bool) {
    if c.zone_id != s.zone_id {
        (s, false)
    } else if c.block_hash == s.parent_hash {
        (s, true)
    } else if c.epoch != s.epoch && c.epoch + 1 != s.epoch {
        (s, false)
    } else {
        let s1 = ZoneState { warmup_ticks: 0, ..s };
        if c.parent_hash != s1.parent_hash {
            if !s1.force_adopt_next_cert {
                (s1, false)
            } else if c.height + 1 < s1.height {
                (s1, false)
            } else {
                let s2 = ZoneState {
                    parent_hash: c.parent_hash,
                    height: c.height,
                    force_adopt_next_cert: false,
                    fork_recovery_used: true,
                    consecutive_timeouts: 0,
                    ..s1
                };
                (spec_advance(s2, c.block_hash, false), true)
            }
        } else {
            (spec_advance(s1, c.block_hash, true), true)
        }
    }
}

/// Transition to a new epoch with a new committee: round 0, no pending
/// proposal, a fresh vote collector. Height, head and the stall counter are
/// kept.
pub open spec fn spec_advance_to_epoch(s: ZoneState, e: EpochId, c: Seq<ValidatorModel>) -> ZoneState {
    ZoneState {
        epoch: e,
        committee: c,
        round: 0,
        pending_proposal: None,
        rebroadcast_count: 0,
        ticks_in_round: 0,
        consecutive_successes: 0,
        proposal_seen: false,
        votes: spec_new_builder(s.zone_id, e, s.config.quorum_threshold),
        ..s
    }
}

/// The block parameters a proposal at time `now_ms` uses.
pub open spec fn spec_block_params(s: ZoneState, now_ms: u64) -> BlockParams {
    BlockParams {
        zone_id: s.zone_id,
        epoch: s.epoch,
        height: s.height,
        parent_hash: s.parent_hash,
        timestamp_ms: now_ms,
        proposer_id: s.my_validator_id,
    }
}

/// The spends that go into a new block: the first `max_block_size`.
pub open spec fn spec_block_spends(s: ZoneState, spends: Seq<SpendModel>) -> Seq<SpendModel> {
    if spends.len() <= s.config.max_block_size {
        spends
    } else {
        spends.subrange(0, s.config.max_block_size as int)
    }
}

/// Adding a vote from a committee member keeps every collected vote from
/// the committee.
pub proof fn lemma_add_vote_keeps_members(
    b: BuilderModel,
    v: VoteModel,
    parent: [u8; 32],
    height: u64,
    c: Seq<ValidatorModel>,
)
    requires
        in_committee(c, v.voter_id),
        forall|h: [u8; 32], i: int|
            #![trigger b.votes[h][i]]
            b.votes.contains_key(h) && 0 <= i < b.votes[h].len() ==> in_committee(c, b.votes[h][i].validator_id),
    ensures
        ({
            let b2 = spec_add_vote(b, v, parent, height).0;
            forall|h: [u8; 32], i: int|
                #![trigger b2.votes[h][i]]
                b2.votes.contains_key(h) && 0 <= i < b2.votes[h].len() ==> in_committee(c, b2.votes[h][i].validator_id)
        }),
{
    let b2 = spec_add_vote(b, v, parent, height).0;
    assert forall|h: [u8; 32], i: int|
        #![trigger b2.votes[h][i]]
        b2.votes.contains_key(h) && 0 <= i < b2.votes[h].len() implies in_committee(c, b2.votes[h][i].validator_id) by {
        if h == v.block_hash && b2 != b {
            let old_s = votes_for(b, h);
            if i < old_s.len() {
                assert(b2.votes[h][i] == b.votes[h][i]);
            }
        } else {
            assert(b2.votes[h][i] == b.votes[h][i]);
        }
    }
}

/// Per-zone consensus state machine.
pub struct ZoneConsensus {
    zone_id: ZoneId,
    epoch: EpochId,
    round: u64,
    height: u64,
    committee: Vec<ValidatorInfo>,
    my_validator_id: [u8; 32],
    cert_builder: CertificateBuilder,
    parent_hash: [u8; 32],
    config: ZephyrConfig,
    pending_proposal: Option<Block>,
    rebroadcast_count: u32,
    ticks_in_round: u32,
    consecutive_timeouts: u32,
    consecutive_successes: u32,
    proposal_seen: bool,
    voted_block_hash: Option<[u8; 32]>,
    warmup_ticks: u32,
    force_adopt_next_cert: bool,
    fork_recovery_used: bool,
    node_id: usize,
}

impl View for ZoneConsensus {
    type V = ZoneState;

    closed spec fn view(&self) -> ZoneState {
        ZoneState {
            zone_id: self.zone_id,
            epoch: self.epoch,
            round: self.round,
            height: self.height,
            committee: validators_model(self.committee@),
            my_validator_id: self.my_validator_id,
            votes: self.cert_builder.model(),
            parent_hash: self.parent_hash,
            config: self.config,
            pending_proposal: opt_block(self.pending_proposal),
            rebroadcast_count: self.rebroadcast_count,
            ticks_in_round: self.ticks_in_round,
            consecutive_timeouts: self.consecutive_timeouts,
            consecutive_successes: self.consecutive_successes,
            proposal_seen: self.proposal_seen,
            voted_block_hash: self.voted_block_hash,
            warmup_ticks: self.warmup_ticks,
            force_adopt_next_cert: self.force_adopt_next_cert,
            fork_recovery_used: self.fork_recovery_used,
            node_id: self.node_id,
        }
    }
}

/// Calls `std::time::SystemTime::now` and returns milliseconds since the
/// Unix epoch (0 if the clock is before the epoch). Nothing is claimed of
/// the value: it is the machine's clock.
#[verifier::external_body]
fn now_ms() -> u64 {
    std::time::SystemTime::now()
        .duration_since(std::time::UNIX_EPOCH)
        .map(|d| d.as_millis() as u64)
        .unwrap_or(0)
}

/// Whether some validator in `committee` has id `id`.
fn committee_contains(committee: &Vec<ValidatorInfo>, id: &[u8; 32]) -> (r: bool)
    ensures
        r == in_committee(validators_model(committee@), *id),
{
    let mut i: usize = 0;
    while i < committee.len()
        invariant
            i <= committee@.len(),
            forall|j: int| 0 <= j < i ==> committee@[j].validator_id != *id,
        decreases committee.len() - i,
    {
        if bytes32_eq(&committee[i].validator_id, id) {
            proof {
                let c = validators_model(committee@);
                assert(c[i as int].validator_id == *id);
            }
            return true;
        }
        i += 1;
    }
    proof {
        let c = validators_model(committee@);
        if in_committee(c, *id) {
            let j = choose|j: int| 0 <= j < c.len() && c[j].validator_id == *id;
            assert(committee@[j].validator_id == *id);
        }
    }
    false
}

impl ZoneConsensus {
    /// Internal consistency (see [`state_wf`]).
    pub closed spec fn wf(&self) -> bool {
        &&& self.cert_builder.wf()
        &&& state_wf(self@)
    }

    /// A new engine for `zone_id` in `epoch`, starting on `parent_hash`.
    pub fn new(
        zone_id: ZoneId,
        epoch: EpochId,
        committee: Vec<ValidatorInfo>,
        my_validator_id: [u8; 32],
        parent_hash: [u8; 32],
        config: ZephyrConfig,
        node_id: usize,
    ) -> (r: Self)
        ensures
            r.wf(),
            r@ == spec_new(zone_id, epoch, validators_model(committee@), my_validator_id, parent_hash, config, node_id),
    {
        let force_adopt_at_genesis = zero_hash(&parent_hash);
        let cert_builder = CertificateBuilder::new(zone_id, epoch, config.quorum_threshold);
        proof { cert_builder.lemma_model_wf(); }
        ZoneConsensus {
            zone_id,
            epoch,
            round: 0,
            height: 0,
            committee,
            my_validator_id,
            cert_builder,
            parent_hash,
            config,
            pending_proposal: None,
            rebroadcast_count: 0,
            ticks_in_round: 0,
            consecutive_timeouts: 0,
            consecutive_successes: 0,
            proposal_seen: false,
            voted_block_hash: None,
            warmup_ticks: WARMUP_TICKS,
            force_adopt_next_cert: force_adopt_at_genesis,
            fork_recovery_used: false,
            node_id,
        }
    }

    pub fn zone_id(&self) -> (r: ZoneId)
        ensures
            r == self@.zone_id,
    {
        self.zone_id
    }

    pub fn epoch(&self) -> (r: EpochId)
        ensures
            r == self@.epoch,
    {
        self.epoch
    }

    pub fn round(&self) -> (r: u64)
        ensures
            r == self@.round,
    {
        self.round
    }

    pub fn height(&self) -> (r: u64)
        ensures
            r == self@.height,
    {
        self.height
    }

    pub fn node_id(&self) -> (r: usize)
        ensures
            r == self@.node_id,
    {
        self.node_id
    }

    /// Whether this node leads the current round.
    pub fn is_leader(&self) -> (r: bool)
        ensures
            r == spec_is_leader(self@),
    {
        if self.committee.len() == 0 {
            return false;
        }
        let leader = leader_for_round(self.committee.as_slice(), self.epoch, self.round);
        bytes32_eq(&leader.validator_id, &self.my_validator_id)
    }

    /// Increment the per-round tick counter. Called once per round-timer fire.
    pub fn tick(&mut self)
        requires
            old(self).wf(),
            old(self)@.ticks_in_round < u32::MAX,
        ensures
            final(self).wf(),
            final(self)@ == spec_tick(old(self)@),
    {
        self.ticks_in_round += 1;
        if self.warmup_ticks > 0 {
            self.warmup_ticks -= 1;
        }
    }

    /// Whether the node is still in the initial warmup period.
    pub fn in_warmup(&self) -> (r: bool)
        ensures
            r == (self@.warmup_ticks > 0),
    {
        self.warmup_ticks > 0
    }

    /// Whether the current round has exceeded the timeout threshold, scaled
    /// by the number of consecutive timeouts (at most fourfold).
    pub fn is_round_timed_out(&self, timeout_ticks: u32) -> (r: bool)
        requires
            effective_timeout(timeout_ticks, self@.consecutive_timeouts) <= u32::MAX,
        ensures
            r == (self@.ticks_in_round >= effective_timeout(timeout_ticks, self@.consecutive_timeouts)),
    {
        let factor: u32 = 1 + if self.consecutive_timeouts < 3 { self.consecutive_timeouts } else { 3 };
        let effective = timeout_ticks * factor;
        self.ticks_in_round >= effective
    }

    /// Reset the round timeout counter (called when consensus activity is
    /// observed, e.g. receiving a valid proposal).
    pub fn reset_timeout(&mut self)
        requires
            old(self).wf(),
        ensures
            final(self).wf(),
            final(self)@ == (ZoneState { ticks_in_round: 0, ..old(self)@ }),
    {
        self.ticks_in_round = 0;
    }

    /// Advance to the next round without a finalized block. Rotates the
    /// leader while preserving `parent_hash` and `height` (no block was
    /// committed). Returns the transactions from the abandoned proposal so
    /// the caller can re-insert them into the mempool.
    pub fn timeout_round(&mut self) -> (r: Vec<SpendTransaction>)
        requires
            old(self).wf(),
            old(self)@.round < u64::MAX,
            old(self)@.consecutive_timeouts < u32::MAX,
        ensures
            final(self).wf(),
            final(self)@ == spec_timeout_round(old(self)@),
            spends_model(r@) == spec_abandoned(old(self)@),
    {
        let txs = match self.pending_proposal.take() {
            Some(b) => b.transactions,
            None => Vec::new(),
        };
        self.round += 1;
        self.rebroadcast_count = 0;
        self.ticks_in_round = 0;
        self.consecutive_timeouts += 1;
        self.consecutive_successes = 0;
        self.proposal_seen = false;
        self.voted_block_hash = None;
        self.cert_builder.clear_votes();
        proof { self.cert_builder.lemma_model_wf(); }
        assert(spends_model(txs@) =~= spec_abandoned(old(self)@));
        txs
    }

    /// Called by the leader when the round timer fires (see
    /// [`ZoneConsensus::propose_at`]), with the block stamped with the
    /// current time.
    pub fn propose<F: FnOnce(&[u8]) -> Vec<u8>>(
        &mut self,
        spends: Vec<SpendTransaction>,
        sign_fn: F,
    ) -> (r: Option<ConsensusAction>)
        requires
            old(self).wf(),
            forall|d: &[u8]| #[trigger] sign_fn.requires((d,)),
        ensures
            final(self).wf(),
            exists|now: u64| #[trigger] propose_outcome(old(self)@, final(self)@, spends_model(spends@), now, opt_action(r)),
            old(self)@.pending_proposal is None ==> (r matches Some(ConsensusAction::BroadcastProposal(b))
                ==> exists|d: &[u8]| d@ == b.block_hash@ && #[trigger] sign_fn.ensures((d,), b.proposer_sig)),
    {
        let now = now_ms();
        let ghost sm = spends_model(spends@);
        let r = self.propose_at(spends, sign_fn, now);
        assert(propose_outcome(old(self)@, self@, sm, now, opt_action(r)));
        r
    }

    /// Called by the leader when the round timer fires.
    ///
    /// On the first call in a round, builds a new block from (at most
    /// `max_block_size` of) `spends`, stamped `now_ms`, and caches it.
    /// Re-broadcasts the cached block up to `MAX_PROPOSAL_REBROADCASTS`
    /// times, then returns `None`. A node that does not lead the round
    /// proposes nothing.
    pub fn propose_at<F: FnOnce(&[u8]) -> Vec<u8>>(
        &mut self,
        spends: Vec<SpendTransaction>,
        sign_fn: F,
        now_ms: u64,
    ) -> (r: Option<ConsensusAction>)
        requires
            old(self).wf(),
            forall|d: &[u8]| #[trigger] sign_fn.requires((d,)),
        ensures
            final(self).wf(),
            propose_outcome(old(self)@, final(self)@, spends_model(spends@), now_ms, opt_action(r)),
            old(self)@.pending_proposal is None ==> (r matches Some(ConsensusAction::BroadcastProposal(b))
                ==> exists|d: &[u8]| d@ == b.block_hash@ && #[trigger] sign_fn.ensures((d,), b.proposer_sig)),
    {
        if !self.is_leader() {
            return None;
        }
        if self.pending_proposal.is_some() {
            if self.rebroadcast_count >= MAX_PROPOSAL_REBROADCASTS {
                return None;
            }
            self.rebroadcast_count += 1;
            let block = match &self.pending_proposal {
                Some(b) => b.clone(),
                None => { return None; },
            };
            return Some(ConsensusAction::BroadcastProposal(block));
        }
        let max = if self.config.max_block_size < spends.len() { self.config.max_block_size } else { spends.len() };
        let mut block_spends = spends;
        block_spends.truncate(max);
        proof {
            assert(spends_model(block_spends@) =~= spec_block_spends(old(self)@, spends_model(spends@)));
        }
        let params = BlockParams {
            zone_id: self.zone_id,
            epoch: self.epoch,
            height: self.height,
            parent_hash: self.parent_hash,
            timestamp_ms: now_ms,
            proposer_id: self.my_validator_id,
        };
        let block = build_block(params, block_spends, sign_fn);
        let cached = block.clone();
        self.pending_proposal = Some(cached);
        Some(ConsensusAction::BroadcastProposal(block))
    }

    /// Whether a proposal is already pending for this round. When true, the
    /// caller should skip draining the mempool since those transactions are
    /// already in the cached block.
    pub fn has_pending_proposal(&self) -> (r: bool)
        ensures
            r == (self@.pending_proposal is Some),
    {
        self.pending_proposal.is_some()
    }

    /// Check all guard conditions on a proposal. Returns `Ok(())` if the
    /// proposal is valid for voting, or `Err(reason)` explaining rejection.
    fn validate_proposal(&self, proposal: &Block) -> (r: Result<(), &'static str>)
        ensures
            r is Ok <==> spec_proposal_ok(self@, proposal@),
    {
        if self.proposal_seen {
            return Err("already voted");
        }
        if proposal.header.zone_id != self.zone_id || proposal.header.epoch != self.epoch {
            return Err("zone/epoch mismatch");
        }
        let same_parent = bytes32_eq(&proposal.header.parent_hash, &self.parent_hash);
        if !same_parent && !self.force_adopt_next_cert {
            return Err("parent_hash mismatch");
        }
        if !same_parent && self.force_adopt_next_cert && proposal.header.height < self.height {
            return Err("fork recovery: backward jump");
        }
        if !committee_contains(&self.committee, &proposal.header.proposer_id) {
            return Err("proposer not in committee");
        }
        Ok(())
    }

    /// Validate a proposal and produce a vote if it checks out. The vote's
    /// signature is `sign_fn` applied to the block hash.
    ///
    /// The caller is responsible for verifying all spend proofs in the
    /// proposal, checking nullifiers against the nullifier set, and passing
    /// only valid proposals to this method.
    pub fn vote_on_proposal<F: FnOnce(&[u8]) -> Vec<u8>>(
        &mut self,
        proposal: &Block,
        sign_fn: F,
    ) -> (r: Option<ConsensusAction>)
        requires
            old(self).wf(),
            forall|d: &[u8]| #[trigger] sign_fn.requires((d,)),
        ensures
            final(self).wf(),
            !spec_proposal_ok(old(self)@, proposal@) ==> r is None && final(self)@ == old(self)@,
            spec_proposal_ok(old(self)@, proposal@) ==> {
                &&& final(self)@ == spec_after_vote(old(self)@, proposal@)
                &&& r matches Some(ConsensusAction::BroadcastVote(v))
                &&& v.zone_id == old(self)@.zone_id
                &&& v.epoch == old(self)@.epoch
                &&& v.block_hash == proposal.block_hash
                &&& v.voter_id == old(self)@.my_validator_id
                &&& exists|d: &[u8]| d@ == proposal.block_hash@ && #[trigger] sign_fn.ensures((d,), v.signature)
            },
    {
        let ghost s0 = self@;
        match self.validate_proposal(proposal) {
            Ok(()) => {},
            Err(_) => { return None; },
        }
        if !bytes32_eq(&proposal.header.parent_hash, &self.parent_hash) && self.force_adopt_next_cert {
            self.parent_hash = proposal.header.parent_hash;
            self.height = proposal.header.height;
            self.force_adopt_next_cert = false;
            self.fork_recovery_used = true;
        }
        self.proposal_seen = true;
        self.warmup_ticks = 0;
        self.voted_block_hash = Some(proposal.block_hash);
        self.cert_builder.retain_block(proposal.block_hash);
        proof { self.cert_builder.lemma_model_wf(); }
        let msg = proposal.block_hash.as_slice();
        let signature = sign_fn(msg);
        let vote = BlockVote {
            zone_id: self.zone_id,
            epoch: self.epoch,
            block_hash: proposal.block_hash,
            voter_id: self.my_validator_id,
            signature,
        };
        assert(self@ == spec_after_vote(s0, proposal@));
        assert(sign_fn.ensures((msg,), vote.signature));
        assert(msg@ == proposal.block_hash@);
        assert(exists|d: &[u8]| d@ == proposal.block_hash@ && #[trigger] sign_fn.ensures((d,), vote.signature));
        assert(vote.block_hash == proposal.block_hash);
        assert(vote.zone_id == s0.zone_id && vote.epoch == s0.epoch && vote.voter_id == s0.my_validator_id);
        Some(ConsensusAction::BroadcastVote(vote))
    }

    /// Move to the next round on top of `new_parent_hash`.
    fn advance_round_inner(&mut self, new_parent_hash: [u8; 32], is_genuine_progress: bool)
        requires
            old(self).wf(),
            old(self)@.round < u64::MAX,
            old(self)@.height < u64::MAX,
        ensures
            final(self).wf(),
            final(self)@ == spec_advance(old(self)@, new_parent_hash, is_genuine_progress),
    {
        self.parent_hash = new_parent_hash;
        self.round += 1;
        self.height += 1;
        self.pending_proposal = None;
        self.rebroadcast_count = 0;
        self.ticks_in_round = 0;
        if is_genuine_progress {
            self.consecutive_successes += 1;
            if self.consecutive_successes >= STALL_DECAY_SUCCESSES {
                self.consecutive_timeouts = self.consecutive_timeouts.saturating_sub(1);
                self.consecutive_successes = 0;
            }
        }
        self.proposal_seen = false;
        self.voted_block_hash = None;
        self.cert_builder.clear_votes();
        proof { self.cert_builder.lemma_model_wf(); }
    }

    /// Process an incoming vote. Returns a certificate action if quorum is
    /// reached.
    pub fn receive_vote(&mut self, vote: BlockVote) -> (r: Option<ConsensusAction>)
        requires
            old(self).wf(),
            old(self)@.round < u64::MAX,
            old(self)@.height < u64::MAX,
        ensures
            final(self).wf(),
            final(self)@ == spec_receive_vote(old(self)@, vote@).0,
            match spec_receive_vote(old(self)@, vote@).1 {
                Some(c) => r matches Some(ConsensusAction::BroadcastCertificate(cert)) && cert@ == c,
                None => r is None,
            },
    {
        if !committee_contains(&self.committee, &vote.voter_id) {
            return None;
        }
        match self.voted_block_hash {
            Some(h) => {
                if !bytes32_eq(&vote.block_hash, &h) {
                    return None;
                }
            },
            None => {},
        }
        let resets = match &self.pending_proposal {
            Some(p) => bytes32_eq(&p.block_hash, &vote.block_hash),
            None => false,
        };
        if resets {
            self.ticks_in_round = 0;
        }
        let parent = self.parent_hash;
        let height = self.height;
        let ghost vm = vote@;
        let ghost b0 = self.cert_builder.model();
        let c = self.cert_builder.add_vote(vote, parent, height);
        proof {
            self.cert_builder.lemma_model_wf();
            lemma_add_vote_keeps_members(b0, vm, parent, height, self@.committee);
        }
        match c {
            Some(cert) => {
                if bytes32_eq(&cert.block_hash, &self.parent_hash) {
                    return None;
                }
                let h = cert.block_hash;
                self.advance_round_inner(h, true);
                Some(ConsensusAction::BroadcastCertificate(cert))
            },
            None => None,
        }
    }

    /// Apply a received certificate (e.g. from the global topic).
    ///
    /// Accepts certificates from the current epoch or the immediately
    /// previous epoch to handle the epoch-boundary race where some nodes
    /// transition before applying a late certificate. A certificate on
    /// another head is adopted only with fork recovery armed (see
    /// [`spec_apply_certificate`]).
    pub fn apply_certificate(&mut self, cert: &FinalityCertificate) -> (r: bool)
        requires
            old(self).wf(),
            old(self)@.round < u64::MAX,
            old(self)@.height < u64::MAX,
            cert.height < u64::MAX,
        ensures
            final(self).wf(),
            (final(self)@, r) == spec_apply_certificate(old(self)@, cert@),
    {
        if cert.zone_id != self.zone_id {
            return false;
        }
        if bytes32_eq(&cert.block_hash, &self.parent_hash) {
            return true;
        }
        let previous_epoch = self.epoch > 0 && cert.epoch == self.epoch - 1;
        if cert.epoch != self.epoch && !previous_epoch {
            return false;
        }
        self.warmup_ticks = 0;
        if !bytes32_eq(&cert.parent_hash, &self.parent_hash) {
            if !self.force_adopt_next_cert {
                return false;
            }
            if cert.height + 1 < self.height {
                return false;
            }
            self.parent_hash = cert.parent_hash;
            self.height = cert.height;
            self.force_adopt_next_cert = false;
            self.fork_recovery_used = true;
            self.consecutive_timeouts = 0;
            self.advance_round_inner(cert.block_hash, false);
            return true;
        }
        self.advance_round_inner(cert.block_hash, true);
        true
    }

    /// Transition to the next epoch with a new committee.
    ///
    /// Resets round to 0, clears the pending proposal, and rebuilds the
    /// certificate builder for the new epoch. Height is preserved across
    /// epochs (monotonic per-zone counter); so is the stall counter, so
    /// that the stall-recovery threshold can accumulate across epoch
    /// boundaries.
    pub fn advance_to_epoch(&mut self, new_epoch: EpochId, new_committee: Vec<ValidatorInfo>)
        requires
            old(self).wf(),
        ensures
            final(self).wf(),
            final(self)@ == spec_advance_to_epoch(old(self)@, new_epoch, validators_model(new_committee@)),
    {
        self.epoch = new_epoch;
        self.committee = new_committee;
        self.round = 0;
        self.pending_proposal = None;
        self.rebroadcast_count = 0;
        self.ticks_in_round = 0;
        self.consecutive_successes = 0;
        self.proposal_seen = false;
        self.cert_builder = CertificateBuilder::new(self.zone_id, new_epoch, self.config.quorum_threshold);
        proof { self.cert_builder.lemma_model_wf(); }
    }

    /// Arm fork recovery: the next incoming certificate will be adopted
    /// even if its `parent_hash` doesn't match ours. Returns `true` if newly
    /// armed, `false` if already armed.
    pub fn enable_fork_recovery(&mut self) -> (r: bool)
        requires
            old(self).wf(),
        ensures
            final(self).wf(),
            r == !old(self)@.force_adopt_next_cert,
            final(self)@ == (ZoneState { force_adopt_next_cert: true, ..old(self)@ }),
    {
        if self.force_adopt_next_cert {
            return false;
        }
        self.force_adopt_next_cert = true;
        true
    }

    /// Returns `true` if fork recovery was used since the last call, and
    /// clears the flag.
    pub fn take_fork_recovery_used(&mut self) -> (r: bool)
        requires
            old(self).wf(),
        ensures
            final(self).wf(),
            r == old(self)@.fork_recovery_used,
            final(self)@ == (ZoneState { fork_recovery_used: false, ..old(self)@ }),
    {
        let r = self.fork_recovery_used;
        self.fork_recovery_used = false;
        r
    }

    pub fn parent_hash(&self) -> (r: &[u8; 32])
        ensures
            *r == self@.parent_hash,
    {
        &self.parent_hash
    }

    pub fn consecutive_timeouts(&self) -> (r: u32)
        ensures
            r == self@.consecutive_timeouts,
    {
        self.consecutive_timeouts
    }

    pub fn consecutive_successes(&self) -> (r: u32)
        ensures
            r == self@.consecutive_successes,
    {
        self.consecutive_successes
    }

    pub fn ticks_in_round(&self) -> (r: u32)
        ensures
            r == self@.ticks_in_round,
    {
        self.ticks_in_round
    }

    /// The id of the current round's leader.
    pub fn leader_id(&self) -> (r: [u8; 32])
        requires
            self@.committee.len() > 0,
        ensures
            r == spec_leader_id(self@),
    {
        leader_for_round(self.committee.as_slice(), self.epoch, self.round).validator_id
    }

    /// Hash of the pending proposal, if any.
    pub fn pending_proposal_hash(&self) -> (r: Option<[u8; 32]>)
        ensures
            r == match self@.pending_proposal {
                Some(b) => Some(b.block_hash),
                None => None::<[u8; 32]>,
            },
    {
        match &self.pending_proposal {
            Some(b) => Some(b.block_hash),
            None => None,
        }
    }

    /// Votes collected for the pending proposal (0 if there is none).
    pub fn vote_count_for_pending(&self) -> (r: usize)
        requires
            self.wf(),
        ensures
            r == match self@.pending_proposal {
                Some(b) => votes_for(self@.votes, b.block_hash).len(),
                None => 0,
            },
    {
        match &self.pending_proposal {
            Some(b) => self.cert_builder.vote_count(&b.block_hash),
            None => 0,
        }
    }

    /// Hex of the first 8 bytes of the head hash.
    pub fn parent_hash_hex(&self) -> (r: String)
        ensures
            r@ == hex_spec(self@.parent_hash@.subrange(0, 8)),
    {
        let p = self.parent_hash.as_slice();
        let mut prefix: Vec<u8> = Vec::new();
        let mut i: usize = 0;
        while i < 8
            invariant
                i <= 8,
                p@ == self@.parent_hash@,
                prefix@ == p@.subrange(0, i as int),
            decreases 8 - i,
        {
            prefix.push(p[i]);
            i += 1;
            assert(prefix@ =~= p@.subrange(0, i as int));
        }
        hex_encode(prefix.as_slice())
    }

    pub fn committee_size(&self) -> (r: usize)
        ensures
            r == self@.committee.len(),
    {
        self.committee.len()
    }

    pub fn proposal_seen(&self) -> (r: bool)
        ensures
            r == self@.proposal_seen,
    {
        self.proposal_seen
    }

    /// Number of distinct block hashes that have received at least one vote.
    pub fn vote_block_count(&self) -> (r: usize)
        requires
            self.wf(),
        ensures
            r == self@.votes.order.len(),
    {
        self.cert_builder.pending_count()
    }

    /// `(distinct_block_count, max_votes_for_any_single_block)`.
    pub fn vote_summary(&self) -> (r: (usize, usize))
        requires
            self.wf(),
        ensures
            r.0 == self@.votes.order.len(),
            forall|h: [u8; 32]| #[trigger] self@.votes.votes.contains_key(h) ==> self@.votes.votes[h].len() <= r.1,
            r.1 == 0 || exists|h: [u8; 32]| #[trigger] self@.votes.votes.contains_key(h) && self@.votes.votes[h].len() == r.1,
    {
        (self.cert_builder.pending_count(), self.cert_builder.max_vote_count())
    }
}

/// Outcome of a proposal call at time `now`: a non-leader, or a leader
/// that has used up its rebroadcasts, proposes nothing and changes
/// nothing; a leader with a cached block rebroadcasts it; otherwise the
/// leader builds, caches and returns a block from the first
/// `max_block_size` spends.
pub open spec fn propose_outcome(
    s: ZoneState,
    s2: ZoneState,
    spends: Seq<SpendModel>,
    now: u64,
    r: Option<ActionModel>,
) -> bool {
    if !spec_is_leader(s) {
        r is None && s2 == s
    } else if s.pending_proposal is Some {
        if s.rebroadcast_count >= MAX_PROPOSAL_REBROADCASTS {
            r is None && s2 == s
        } else {
            &&& s2 == (ZoneState { rebroadcast_count: (s.rebroadcast_count + 1) as u32, ..s })
            &&& r == Some(ActionModel::Proposal(s.pending_proposal->0))
        }
    } else {
        &&& r matches Some(ActionModel::Proposal(b))
        &&& is_built_block(b, spec_block_params(s, now), spec_block_spends(s, spends))
        &&& s2 == (ZoneState { pending_proposal: Some(b), ..s })
    }
}

} // verus!
