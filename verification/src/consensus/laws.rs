//! Properties of the zone state machine that span its operations.
use vstd::prelude::*;
use crate::consensus::engine::{
    in_committee, propose_outcome, spec_advance, spec_advance_to_epoch, spec_after_vote,
    spec_apply_certificate, spec_is_leader, spec_proposal_ok, spec_receive_vote, spec_tick,
    spec_timeout_round, state_wf, votes_from_committee, ActionModel, ZoneState, MAX_PROPOSAL_REBROADCASTS,
};
use crate::consensus::vote::{distinct_voters, has_voter, spec_add_vote, votes_for};
use crate::types::{CertificateModel, EpochId, SpendModel, ValidatorModel, VoteModel, BlockModel};

verus! {

/// The height is a monotonic per-zone counter: ticks, timeouts, proposals
/// and epoch changes keep it, and votes and certificates (fork recovery
/// included) never move it backwards.
pub proof fn law_height_monotonic(
    s: ZoneState,
    v: VoteModel,
    p: BlockModel,
    c: CertificateModel,
    e: EpochId,
    com: Seq<ValidatorModel>,
    s2: ZoneState,
    spends: Seq<SpendModel>,
    now: u64,
    r: Option<ActionModel>,
)
    requires
        s.height < u64::MAX,
        s.round < u64::MAX,
        c.height < u64::MAX,
    ensures
        spec_tick(s).height == s.height,
        spec_timeout_round(s).height == s.height,
        spec_advance_to_epoch(s, e, com).height == s.height,
        propose_outcome(s, s2, spends, now, r) ==> s2.height == s.height,
        spec_proposal_ok(s, p) ==> spec_after_vote(s, p).height >= s.height,
        spec_receive_vote(s, v).0.height >= s.height,
        spec_apply_certificate(s, c).0.height >= s.height,
{
}

/// One operation of the engine taking `s` to `s2`: a tick, a round
/// timeout, an epoch change, a proposal, its own vote, a received vote, a
/// certificate, or arming or reading fork recovery.
pub open spec fn engine_step(s: ZoneState, s2: ZoneState) -> bool {
    ||| s2 == spec_tick(s)
    ||| s2 == spec_timeout_round(s)
    ||| exists|e: EpochId, com: Seq<ValidatorModel>| #[trigger] spec_advance_to_epoch(s, e, com) == s2
    ||| exists|spends: Seq<SpendModel>, now: u64, r: Option<ActionModel>| #[trigger] propose_outcome(s, s2, spends, now, r)
    ||| exists|p: BlockModel| spec_proposal_ok(s, p) && #[trigger] spec_after_vote(s, p) == s2
    ||| exists|v: VoteModel| #[trigger] spec_receive_vote(s, v).0 == s2
    ||| exists|c: CertificateModel| c.height < u64::MAX && #[trigger] spec_apply_certificate(s, c).0 == s2
    ||| s2 == ZoneState { force_adopt_next_cert: true, ..s }
    ||| s2 == ZoneState { fork_recovery_used: false, ..s }
}

/// No single engine operation lowers the height.
pub proof fn lemma_step_keeps_height(s: ZoneState, s2: ZoneState)
    requires
        s.height < u64::MAX,
        s.round < u64::MAX,
        engine_step(s, s2),
    ensures
        s2.height >= s.height,
{
    if exists|c: CertificateModel| c.height < u64::MAX && #[trigger] spec_apply_certificate(s, c).0 == s2 {
        let c = choose|c: CertificateModel| c.height < u64::MAX && #[trigger] spec_apply_certificate(s, c).0 == s2;
        assert(spec_apply_certificate(s, c).0.height >= s.height);
    }
}

/// Along any run of engine operations, across epochs and fork recovery,
/// the height never decreases: it is a monotonic counter of the zone.
pub proof fn law_height_never_decreases(run: Seq<ZoneState>)
    requires
        forall|i: int| 0 <= i < run.len() - 1 ==> (#[trigger] run[i]).height < u64::MAX && run[i].round < u64::MAX,
        forall|i: int| 0 <= i < run.len() - 1 ==> engine_step(#[trigger] run[i], run[i + 1]),
    ensures
        forall|i: int, j: int| 0 <= i <= j < run.len() ==> run[i].height <= run[j].height,
    decreases run.len(),
{
    if run.len() > 1 {
        let front = run.drop_last();
        assert forall|i: int| 0 <= i < front.len() - 1 implies (#[trigger] front[i]).height < u64::MAX && front[i].round
            < u64::MAX && engine_step(front[i], front[i + 1]) by {
            assert(front[i] == run[i] && front[i + 1] == run[i + 1]);
            assert(engine_step(run[i], run[i + 1]));
        }
        law_height_never_decreases(front);
        let n = run.len() - 1;
        assert(run[n - 1].height < u64::MAX && run[n - 1].round < u64::MAX);
        assert(engine_step(run[n - 1], run[n]));
        lemma_step_keeps_height(run[n - 1], run[n]);
        assert forall|i: int, j: int| 0 <= i <= j < run.len() implies run[i].height <= run[j].height by {
            if j < n {
                assert(front[i] == run[i] && front[j] == run[j]);
            } else if i < n {
                assert(front[i] == run[i] && front[n - 1] == run[n - 1]);
            }
        }
    }
}

/// The state `k` calls after a leader's first proposal in a round, when
/// nothing else touched the engine: the block stays cached and the resend
/// count stops at its limit.
pub open spec fn after_resends(s1: ZoneState, k: nat) -> ZoneState {
    ZoneState {
        rebroadcast_count: if k < MAX_PROPOSAL_REBROADCASTS { k as u32 } else { MAX_PROPOSAL_REBROADCASTS },
        ..s1
    }
}

/// Over any run of `propose` calls by a leader that starts the round with
/// no proposal (and with nothing else touching the engine), the first call
/// builds a block, each of the next `MAX_PROPOSAL_REBROADCASTS` calls sends
/// that same block again, and every later call sends nothing.
pub proof fn law_rebroadcast_run(
    run: Seq<ZoneState>,
    spends: Seq<Seq<SpendModel>>,
    nows: Seq<u64>,
    rs: Seq<Option<ActionModel>>,
)
    requires
        run.len() == rs.len() + 1,
        spends.len() == rs.len(),
        nows.len() == rs.len(),
        state_wf(run[0]),
        spec_is_leader(run[0]),
        run[0].pending_proposal is None,
        forall|i: int| 0 <= i < rs.len() ==> propose_outcome(#[trigger] run[i], run[i + 1], spends[i], nows[i], rs[i]),
    ensures
        rs.len() > 0 ==> rs[0] is Some,
        forall|i: int| 1 <= i < rs.len() ==> (i <= MAX_PROPOSAL_REBROADCASTS ==> #[trigger] rs[i] == rs[0]),
        forall|i: int| 1 <= i < rs.len() ==> (i > MAX_PROPOSAL_REBROADCASTS ==> (#[trigger] rs[i]) is None),
    decreases rs.len(),
{
    if rs.len() > 1 {
        let n = (rs.len() - 1) as int;
        assert forall|i: int| 0 <= i < rs.drop_last().len() implies propose_outcome(
            #[trigger] run.drop_last()[i],
            run.drop_last()[i + 1],
            spends.drop_last()[i],
            nows.drop_last()[i],
            rs.drop_last()[i],
        ) by {
            assert(run.drop_last()[i] == run[i] && run.drop_last()[i + 1] == run[i + 1]);
            assert(propose_outcome(run[i], run[i + 1], spends[i], nows[i], rs[i]));
        }
        law_rebroadcast_run(run.drop_last(), spends.drop_last(), nows.drop_last(), rs.drop_last());
        lemma_resend_states(run, spends, nows, rs, n);
        assert forall|i: int| 1 <= i < rs.len() implies (i <= MAX_PROPOSAL_REBROADCASTS ==> #[trigger] rs[i] == rs[0])
            && (i > MAX_PROPOSAL_REBROADCASTS ==> rs[i] is None) by {
            if i < n {
                assert(rs.drop_last()[i] == rs[i] && rs.drop_last()[0] == rs[0]);
            }
        }
    } else if rs.len() == 1 {
        assert(propose_outcome(run[0], run[1], spends[0], nows[0], rs[0]));
    }
}

/// The states of such a run: after the first call and `k` more, the engine
/// is [`after_resends`] of the state the first call left, and the `k`-th
/// resend sends the cached block while the limit allows.
proof fn lemma_resend_states(
    run: Seq<ZoneState>,
    spends: Seq<Seq<SpendModel>>,
    nows: Seq<u64>,
    rs: Seq<Option<ActionModel>>,
    k: int,
)
    requires
        run.len() == rs.len() + 1,
        spends.len() == rs.len(),
        nows.len() == rs.len(),
        state_wf(run[0]),
        spec_is_leader(run[0]),
        run[0].pending_proposal is None,
        forall|i: int| 0 <= i < rs.len() ==> propose_outcome(#[trigger] run[i], run[i + 1], spends[i], nows[i], rs[i]),
        1 <= k < rs.len(),
    ensures
        run[k] == after_resends(run[1], (k - 1) as nat),
        rs[0] matches Some(ActionModel::Proposal(b)) && run[1].pending_proposal == Some(b),
        k <= MAX_PROPOSAL_REBROADCASTS ==> rs[k] == rs[0],
        k > MAX_PROPOSAL_REBROADCASTS ==> rs[k] is None,
    decreases k,
{
    assert(propose_outcome(run[0], run[1], spends[0], nows[0], rs[0]));
    assert(run[0].rebroadcast_count == 0);
    if k > 1 {
        lemma_resend_states(run, spends, nows, rs, k - 1);
        assert(propose_outcome(run[k - 1], run[k], spends[k - 1], nows[k - 1], rs[k - 1]));
        assert(run[k] == after_resends(run[1], (k - 1) as nat));
    } else {
        assert(run[1] == after_resends(run[1], 0));
    }
    assert(propose_outcome(run[k], run[k + 1], spends[k], nows[k], rs[k]));
}

/// Applying a certificate again right after the engine accepted it is
/// accepted once more and changes nothing, whatever the counters.
pub proof fn law_certificate_reapply(s: ZoneState, c: CertificateModel)
    ensures
        spec_apply_certificate(s, c).1 ==> spec_apply_certificate(spec_apply_certificate(s, c).0, c) == (
        spec_apply_certificate(s, c).0, true),
{
}

/// A certificate of this zone for a block other than the head, from an
/// epoch that is neither the engine's nor the one just before it, is
/// refused: the engine keeps its head and its height.
pub proof fn law_stale_epoch_certificate_refused(s: ZoneState, c: CertificateModel)
    requires
        c.zone_id == s.zone_id,
        c.block_hash != s.parent_hash,
        c.epoch != s.epoch,
        c.epoch + 1 != s.epoch,
    ensures
        !spec_apply_certificate(s, c).1,
        spec_apply_certificate(s, c).0.parent_hash == s.parent_hash,
        spec_apply_certificate(s, c).0.height == s.height,
{
}

/// A node never votes for a block proposed by a validator outside the
/// current committee.
pub proof fn law_outsider_proposal_refused(s: ZoneState, p: BlockModel)
    requires
        forall|i: int| 0 <= i < s.committee.len() ==> s.committee[i].validator_id != p.header.proposer_id,
    ensures
        !spec_proposal_ok(s, p),
{
}

/// A freshly built proposal carries the first `min(max_block_size, n)` of
/// the `n` offered spends, in the order they were offered.
pub proof fn law_proposal_takes_oldest_spends(
    s: ZoneState,
    s2: ZoneState,
    spends: Seq<SpendModel>,
    now: u64,
    b: BlockModel,
)
    requires
        s.pending_proposal is None,
        propose_outcome(s, s2, spends, now, Some(ActionModel::Proposal(b))),
    ensures
        b.transactions.len() == if spends.len() < s.config.max_block_size { spends.len() } else {
            s.config.max_block_size as nat
        },
        forall|i: int| 0 <= i < b.transactions.len() ==> b.transactions[i] == spends[i],
{
}

/// What applying a certificate does, case by case: another zone's
/// certificate is refused and changes nothing; the current head's is
/// accepted and changes nothing; one that extends the head is accepted
/// and moves the head to its block, one height up; one on another parent
/// is refused unless fork recovery is armed, and an adopted one leaves the
/// engine just above the certificate's height with recovery disarmed.
pub proof fn law_certificate_cases(s: ZoneState, c: CertificateModel)
    requires
        s.height < u64::MAX,
        s.round < u64::MAX,
        c.height < u64::MAX,
    ensures
        c.zone_id != s.zone_id ==> spec_apply_certificate(s, c) == (s, false),
        c.zone_id == s.zone_id && c.block_hash == s.parent_hash ==> spec_apply_certificate(s, c) == (s, true),
        c.zone_id == s.zone_id && c.block_hash != s.parent_hash && (c.epoch == s.epoch || c.epoch + 1 == s.epoch)
            && c.parent_hash == s.parent_hash ==> {
            let (s1, ok) = spec_apply_certificate(s, c);
            ok && s1.parent_hash == c.block_hash && s1.height == s.height + 1 && s1.epoch == s.epoch
        },
        c.zone_id == s.zone_id && c.block_hash != s.parent_hash && c.parent_hash != s.parent_hash
            && !s.force_adopt_next_cert ==> {
            let (s1, ok) = spec_apply_certificate(s, c);
            !ok && s1.parent_hash == s.parent_hash && s1.height == s.height
        },
        ({
            let (s1, ok) = spec_apply_certificate(s, c);
            ok && c.block_hash != s.parent_hash && c.parent_hash != s.parent_hash ==> {
                &&& s.force_adopt_next_cert
                &&& c.height + 1 >= s.height
                &&& s1.height == c.height + 1
                &&& s1.parent_hash == c.block_hash
                &&& !s1.force_adopt_next_cert
            }
        }),
{
}

/// A node votes only for a proposal it has not yet seen this round, for
/// its zone and epoch, by a committee member, that builds on its head (or
/// at or above its height while fork recovery is armed).
pub proof fn law_vote_conditions(s: ZoneState, p: BlockModel)
    requires
        spec_proposal_ok(s, p),
    ensures
        !s.proposal_seen,
        p.header.zone_id == s.zone_id,
        p.header.epoch == s.epoch,
        exists|i: int| 0 <= i < s.committee.len() && s.committee[i].validator_id == p.header.proposer_id,
        p.header.parent_hash == s.parent_hash || (s.force_adopt_next_cert && p.header.height >= s.height),
{
}

/// A freshly built proposal sits on the engine's head at its height, is
/// stamped with this node as proposer, is cached as the round's proposal,
/// and its hash covers its header.
pub proof fn law_proposal_header(s: ZoneState, s2: ZoneState, spends: Seq<SpendModel>, now: u64, b: BlockModel)
    requires
        s.pending_proposal is None,
        propose_outcome(s, s2, spends, now, Some(ActionModel::Proposal(b))),
    ensures
        b.header.zone_id == s.zone_id,
        b.header.epoch == s.epoch,
        b.header.height == s.height,
        b.header.parent_hash == s.parent_hash,
        b.header.proposer_id == s.my_validator_id,
        b.header.timestamp_ms == now,
        b.block_hash@ == crate::hashing::sha256_spec(crate::consensus::block::header_bytes(b.header)),
        s2.pending_proposal == Some(b),
        s2.height == s.height && s2.parent_hash == s.parent_hash && s2.round == s.round,
{
}

/// A vote from a validator outside the committee, or for another block
/// than the one this node locked its vote on, is ignored: no certificate
/// and no change.
pub proof fn law_foreign_vote_ignored(s: ZoneState, v: VoteModel)
    ensures
        (forall|i: int| 0 <= i < s.committee.len() ==> s.committee[i].validator_id != v.voter_id)
            ==> spec_receive_vote(s, v) == (s, None::<CertificateModel>),
        (s.voted_block_hash matches Some(h) && h != v.block_hash) ==> spec_receive_vote(s, v) == (s, None::<CertificateModel>),
{
}

/// A node votes at most once per round: after voting for a proposal, no
/// proposal passes the guards until the round changes.
pub proof fn law_one_vote_per_round(s: ZoneState, p: BlockModel, p2: BlockModel)
    requires
        spec_proposal_ok(s, p),
    ensures
        !spec_proposal_ok(spec_after_vote(s, p), p2),
        !spec_proposal_ok(spec_tick(spec_after_vote(s, p)), p2),
{
}

/// A round timeout rotates to the next round, releases the vote lock and
/// keeps the chain head and height.
pub proof fn law_timeout_keeps_head(s: ZoneState)
    requires
        s.round < u64::MAX,
    ensures
        spec_timeout_round(s).round == s.round + 1,
        !spec_timeout_round(s).proposal_seen,
        spec_timeout_round(s).voted_block_hash is None,
        spec_timeout_round(s).parent_hash == s.parent_hash,
        spec_timeout_round(s).height == s.height,
        spec_timeout_round(s).pending_proposal is None,
{
}

/// An epoch change restarts the round count but keeps the chain head, the
/// height, the stall counter and an armed fork recovery.
pub proof fn law_epoch_change_keeps_chain(s: ZoneState, e: EpochId, com: Seq<ValidatorModel>)
    ensures
        spec_advance_to_epoch(s, e, com).round == 0,
        spec_advance_to_epoch(s, e, com).epoch == e,
        spec_advance_to_epoch(s, e, com).parent_hash == s.parent_hash,
        spec_advance_to_epoch(s, e, com).height == s.height,
        spec_advance_to_epoch(s, e, com).consecutive_timeouts == s.consecutive_timeouts,
        spec_advance_to_epoch(s, e, com).force_adopt_next_cert == s.force_adopt_next_cert,
{
}

/// A certificate that extends the current head, for this zone and the
/// current or previous epoch, is applied: the head becomes the certified
/// block one height up. An applied certificate is the head afterwards, so
/// applying it again is accepted and changes nothing.
pub proof fn law_certificate_applies_once(s: ZoneState, c: CertificateModel)
    requires
        s.height < u64::MAX,
        s.round < u64::MAX,
        c.height < u64::MAX,
    ensures
        c.zone_id == s.zone_id && c.parent_hash == s.parent_hash && c.block_hash != s.parent_hash && (
        c.epoch == s.epoch || c.epoch + 1 == s.epoch) ==> {
            let (s1, ok) = spec_apply_certificate(s, c);
            ok && s1.parent_hash == c.block_hash && s1.height == s.height + 1
        },
        ({
            let (s1, ok) = spec_apply_certificate(s, c);
            ok ==> s1.parent_hash == c.block_hash && spec_apply_certificate(s1, c) == (s1, true)
        }),
{
}

/// A certificate produced from incoming votes carries exactly the quorum of
/// signatures, from distinct committee members, for a block on top of the
/// current head at the current height; the node then moves onto that
/// block.
pub proof fn law_quorum_certificate(s: ZoneState, v: VoteModel)
    requires
        state_wf(s),
        s.height < u64::MAX,
        s.round < u64::MAX,
    ensures
        spec_receive_vote(s, v).1 matches Some(cert) ==> {
            &&& cert.signatures.len() == s.config.quorum_threshold
            &&& distinct_voters(cert.signatures)
            &&& forall|i: int|
                0 <= i < cert.signatures.len() ==> in_committee(s.committee, #[trigger] cert.signatures[i].validator_id)
            &&& cert.zone_id == s.zone_id
            &&& cert.epoch == s.epoch
            &&& cert.parent_hash == s.parent_hash
            &&& cert.height == s.height
            &&& cert.block_hash != s.parent_hash
            &&& spec_receive_vote(s, v).0.parent_hash == cert.block_hash
            &&& spec_receive_vote(s, v).0.height == s.height + 1
        },
{
    if let Some(cert) = spec_receive_vote(s, v).1 {
        let s1 = if s.pending_proposal is Some && s.pending_proposal->0.block_hash == v.block_hash {
            ZoneState { ticks_in_round: 0, ..s }
        } else {
            s
        };
        let b = s1.votes;
        let old_sigs = votes_for(b, v.block_hash);
        let sigs = cert.signatures;
        assert(!has_voter(old_sigs, v.voter_id));
        assert(sigs == old_sigs.push(crate::types::CertSignatureModel { validator_id: v.voter_id, signature: v.signature }));
        if b.votes.contains_key(v.block_hash) {
            assert(distinct_voters(old_sigs));
        }
        assert forall|i: int, j: int| 0 <= i < j < sigs.len() implies sigs[i].validator_id != sigs[j].validator_id by {
            if j == sigs.len() - 1 {
                assert(old_sigs[i].validator_id != v.voter_id);
            } else {
                assert(b.votes.contains_key(v.block_hash));
            }
        }
        assert forall|i: int| 0 <= i < sigs.len() implies in_committee(s.committee, #[trigger] sigs[i].validator_id) by {
            if i < sigs.len() - 1 {
                assert(b.votes.contains_key(v.block_hash));
                assert(sigs[i] == b.votes[v.block_hash][i]);
            }
        }
    }
}

/// At most one committee member leads a given round of a given epoch.
pub proof fn law_single_leader(s1: ZoneState, s2: ZoneState)
    requires
        s1.committee == s2.committee,
        s1.epoch == s2.epoch,
        s1.round == s2.round,
        s1.my_validator_id != s2.my_validator_id,
    ensures
        !(spec_is_leader(s1) && spec_is_leader(s2)),
{
}

/// Within a round, a leader that has proposed a block rebroadcasts that
/// same block when asked to propose again.
pub proof fn law_reproposal_same_block(
    s: ZoneState,
    s1: ZoneState,
    s2: ZoneState,
    spends1: Seq<SpendModel>,
    spends2: Seq<SpendModel>,
    now1: u64,
    now2: u64,
    r1: Option<ActionModel>,
    r2: Option<ActionModel>,
)
    requires
        state_wf(s),
        spec_is_leader(s),
        s.pending_proposal is None,
        propose_outcome(s, s1, spends1, now1, r1),
        propose_outcome(s1, s2, spends2, now2, r2),
    ensures
        r1 is Some,
        r2 == r1,
{
}

/// Every genuine advance (a certificate on our own head) cancels one
/// recorded timeout, down to zero.
pub proof fn law_timeouts_decay(s: ZoneState, h: [u8; 32])
    requires
        state_wf(s),
        s.height < u64::MAX,
        s.round < u64::MAX,
    ensures
        spec_advance(s, h, true).consecutive_timeouts == if s.consecutive_timeouts > 0 {
            s.consecutive_timeouts - 1
        } else {
            0
        },
        spec_advance(s, h, true).consecutive_successes == 0,
{
}

/// A certificate adopted by fork recovery clears the stall counter and
/// disarms fork recovery.
pub proof fn law_fork_recovery_resets_timeouts(s: ZoneState, c: CertificateModel)
    requires
        state_wf(s),
        c.zone_id == s.zone_id,
        c.block_hash != s.parent_hash,
        c.parent_hash != s.parent_hash,
        c.epoch == s.epoch || c.epoch + 1 == s.epoch,
        s.force_adopt_next_cert,
        c.height + 1 >= s.height,
    ensures
        spec_apply_certificate(s, c).1,
        spec_apply_certificate(s, c).0.consecutive_timeouts == 0,
        !spec_apply_certificate(s, c).0.force_adopt_next_cert,
        spec_apply_certificate(s, c).0.fork_recovery_used,
        spec_apply_certificate(s, c).0.parent_hash == c.block_hash,
{
}

} // verus!
