//! The per-zone consensus task: what it does with each proposal, vote,
//! certificate and round tick. It runs the zone's engine, keeps the block
//! caches, finalizes blocks into the shared stores, and hands back the
//! messages to publish and the subscription changes to make; the caller
//! delivers messages and timer ticks and carries those out.
use vstd::prelude::*;
use crate::block_map::BlockMap;
use crate::committee::sample_committee;
use crate::config::ZephyrConfig;
use crate::consensus::engine::{
    spec_advance_to_epoch, spec_after_vote, spec_tick, spec_apply_certificate, spec_is_leader, spec_proposal_ok, MAX_PROPOSAL_REBROADCASTS, spec_receive_vote, spec_timeout_round, ConsensusAction,
    ZoneConsensus, ZoneState,
};
use crate::consensus::pending_certs::{applies_in_order, drawn_from, dropped_stale, has_block, is_stale, PendingCertBuffer};
use crate::messages::ZephyrZoneMessage;
use crate::mempool::{not_in, MempoolModel};
use crate::publishing::{
    apply_certificate_locally, cache_block_txs, cleanup_mempool_after_cert, persist_nullifiers,
    publish_action, publishes, CertificateNotice, Publication, TopicCommand, ZoneShared,
    MAX_RECENT_BLOCKS,
};
use crate::storage::NullifierSet;
use crate::types::{
    certs_model, copy_validators, nullifiers_of, spends_model, Block, BlockModel, BlockVote, CertificateModel,
    FinalityCertificate, Nullifier, ValidatorInfo, VoteModel, ZoneId,
};

verus! {

/// Capacity of each zone's mempool.
pub const ZONE_MEMPOOL_CAPACITY: usize = 65536;

/// Consecutive timeouts after which a stalled zone arms fork recovery.
pub const STALL_TIMEOUTS: u32 = 2;

/// Buffered certificates after which a zone counts as stalled.
pub const STALL_PENDING_CERTS: usize = 8;

/// Ticks between two drains of the certificate buffer.
pub const DRAIN_INTERVAL_TICKS: u32 = 10;

/// The shared stores are consistent.
pub open spec fn shared_wf(s: &ZoneShared) -> bool {
    &&& s.mempool.wf()
    &&& s.stats.recent_blocks@.len() <= MAX_RECENT_BLOCKS
}

/// Every zone with a recorded head in `a` still has one in `b`.
pub open spec fn heads_kept(a: Map<ZoneId, [u8; 32]>, b: Map<ZoneId, [u8; 32]>) -> bool {
    a.dom().subset_of(b.dom())
}

/// Whether the counters leave room to drain `pending` onto `e`: applying
/// every buffered certificate in turn cannot carry the round, the height or
/// a buffered height past its limit.
pub open spec fn drain_guard(e: ZoneState, pending: Seq<CertificateModel>) -> bool {
    &&& e.round + pending.len() < u64::MAX
    &&& e.height + pending.len() < u64::MAX
    &&& forall|j: int| 0 <= j < pending.len() ==> #[trigger] pending[j].height + pending.len() < u64::MAX
}

/// No buffered certificate is stale for `e` or applies to it.
pub open spec fn settled(e: ZoneState, pending: Seq<CertificateModel>) -> bool {
    forall|i: int| 0 <= i < pending.len() ==> !is_stale(e, #[trigger] pending[i])
        && !spec_apply_certificate(e, pending[i]).1
}

/// How a drain takes the engine from `e` to `e2` and the buffer from
/// `before` to `after`, applying `ds`: with room on the counters, `ds`
/// applies in order, what is left neither applies nor is stale, and every
/// buffered certificate was applied, kept or dropped as stale; without
/// room nothing changes.
pub open spec fn drained(
    e: ZoneState,
    before: Seq<CertificateModel>,
    ds: Seq<CertificateModel>,
    e2: ZoneState,
    after: Seq<CertificateModel>,
) -> bool {
    if drain_guard(e, before) {
        &&& applies_in_order(e, ds, e2)
        &&& settled(e2, after)
        &&& exists|dropped: Seq<CertificateModel>| #![trigger dropped.to_multiset()] {
            &&& before.to_multiset() == ds.to_multiset().add(after.to_multiset()).add(dropped.to_multiset())
            &&& forall|k: int| 0 <= k < dropped.len() ==> dropped_stale(e, ds, e2, #[trigger] dropped[k])
        }
    } else {
        ds.len() == 0 && e2 == e && after == before
    }
}

/// The buffer after an overflow purge: the newest three quarters of the
/// capacity stay.
pub open spec fn purged(s: Seq<CertificateModel>, max: nat) -> Seq<CertificateModel> {
    let t = max * 3 / 4;
    if s.len() > t {
        s.subrange(s.len() - t, s.len() as int)
    } else {
        s
    }
}

/// The zone heads after finalizing `certs` one after the other.
pub open spec fn heads_with(h: Map<ZoneId, [u8; 32]>, certs: Seq<CertificateModel>) -> Map<ZoneId, [u8; 32]>
    decreases certs.len(),
{
    if certs.len() == 0 {
        h
    } else {
        heads_with(h, certs.drop_last()).insert(certs.last().zone_id, certs.last().block_hash)
    }
}

/// No spend of `p` uses a nullifier of `spent`.
pub open spec fn spends_fresh(p: BlockModel, spent: Set<Nullifier>) -> bool {
    forall|i: int| 0 <= i < p.transactions.len() ==> !spent.contains(#[trigger] p.transactions[i].nullifier)
}

/// Freshness of a block's spends, read on the block's transactions.
proof fn lemma_spends_fresh(b: &Block, spent: Set<Nullifier>)
    ensures
        spends_fresh(b@, spent) <==> forall|i: int| 0 <= i < b.transactions@.len()
            ==> !spent.contains(#[trigger] b.transactions@[i].nullifier),
{
    assert forall|i: int| 0 <= i < b.transactions@.len() implies #[trigger] b@.transactions[i].nullifier
        == b.transactions@[i].nullifier by {}
    if spends_fresh(b@, spent) {
        assert forall|i: int| 0 <= i < b.transactions@.len() implies !spent.contains(
            #[trigger] b.transactions@[i].nullifier,
        ) by {
            assert(b@.transactions[i].nullifier == b.transactions@[i].nullifier);
        }
    }
    if forall|i: int| 0 <= i < b.transactions@.len() ==> !spent.contains(#[trigger] b.transactions@[i].nullifier) {
        assert forall|i: int| 0 <= i < b@.transactions.len() implies !spent.contains(
            #[trigger] b@.transactions[i].nullifier,
        ) by {
            assert(b@.transactions[i].nullifier == b.transactions@[i].nullifier);
        }
    }
}

/// `out` extends `before`, and its first new message is a vote for block
/// `h` on `topic`.
pub open spec fn votes_for(out: Seq<Publication>, before: Seq<Publication>, h: [u8; 32], topic: Seq<char>) -> bool {
    &&& out.len() > before.len()
    &&& out.subrange(0, before.len() as int) == before
    &&& out[before.len() as int].topic@ == topic
    &&& out[before.len() as int].message matches crate::publishing::OutboundMessage::Vote(v) && v.block_hash == h
}

/// The nullifier lists of the blocks of `keys` whose nullifiers are
/// cached in `bn`, in the order of `keys`.
pub open spec fn resolved_lists(keys: Seq<[u8; 32]>, bn: Map<[u8; 32], (ZoneId, Seq<Nullifier>)>) -> Seq<Seq<Nullifier>>
    decreases keys.len(),
{
    if keys.len() == 0 {
        Seq::empty()
    } else {
        let r = resolved_lists(keys.drop_last(), bn);
        if bn.contains_key(keys.last()) {
            r.push(bn[keys.last()].1)
        } else {
            r
        }
    }
}

/// The mempools after dropping from the pool of `zone` the spends of each
/// list of nullifiers in turn.
pub open spec fn cleaned(m: Map<ZoneId, MempoolModel>, zone: ZoneId, lists: Seq<Seq<Nullifier>>) -> Map<ZoneId, MempoolModel>
    decreases lists.len(),
{
    if lists.len() == 0 {
        m
    } else {
        let m1 = cleaned(m, zone, lists.drop_last());
        if m1.contains_key(zone) {
            m1.insert(zone, MempoolModel { entries: m1[zone].entries.filter(not_in(lists.last())), ..m1[zone] })
        } else {
            m1
        }
    }
}

/// What the handlers of a zone task are described by: the task's state
/// as its accessors show it, the zone heads, and the messages published.
pub struct TaskView {
    pub engine: Option<ZoneState>,
    pub spent: Set<Nullifier>,
    pub buffered: Option<BlockModel>,
    pub pending: Seq<CertificateModel>,
    pub pending_max: nat,
    pub last_epoch: u64,
    pub zone: ZoneId,
    pub consensus_topic: Seq<char>,
    pub global_topic: Seq<char>,
    pub heads: Map<ZoneId, [u8; 32]>,
    pub out: Seq<Publication>,
    pub cache: Map<[u8; 32], (ZoneId, Seq<Nullifier>)>,
}

/// The block nullifier cache after a certificate notice brings `ns`, the
/// nullifiers of its block: kept unless empty or already known.
pub open spec fn cache_with(
    cache: Map<[u8; 32], (ZoneId, Seq<Nullifier>)>,
    c: CertificateModel,
    ns: Seq<Nullifier>,
) -> Map<[u8; 32], (ZoneId, Seq<Nullifier>)> {
    if ns.len() > 0 && !cache.contains_key(c.block_hash) {
        cache.insert(c.block_hash, (c.zone_id, ns))
    } else {
        cache
    }
}

/// The spent set and the nullifier cache after finalizing `certs` in turn:
/// each block adds the nullifiers cached for it and uses up its entry.
pub open spec fn finalized(
    spent: Set<Nullifier>,
    cache: Map<[u8; 32], (ZoneId, Seq<Nullifier>)>,
    certs: Seq<CertificateModel>,
) -> (Set<Nullifier>, Map<[u8; 32], (ZoneId, Seq<Nullifier>)>)
    decreases certs.len(),
{
    if certs.len() == 0 {
        (spent, cache)
    } else {
        let (s1, c1) = finalized(spent, cache, certs.drop_last());
        let h = certs.last().block_hash;
        (if c1.contains_key(h) { s1 + c1[h].1.to_set() } else { s1 }, c1.remove(h))
    }
}

/// How a vote `v` takes a task from `a` to `b` (see
/// [`ZoneTaskState::handle_vote`]).
pub open spec fn vote_step(a: TaskView, b: TaskView, v: VoteModel) -> bool {
    &&& a.spent.subset_of(b.spent)
    &&& b.buffered == a.buffered
    &&& b.last_epoch == a.last_epoch
    &&& b.zone == a.zone
    &&& b.pending == a.pending
    &&& (b.engine is Some <==> a.engine is Some)
    &&& a.engine is None ==> b.out == a.out && b.heads == a.heads && b.spent == a.spent
    &&& (a.engine is Some && a.engine->0.round < u64::MAX && a.engine->0.height < u64::MAX) ==> {
        let (e2, c) = spec_receive_vote(a.engine->0, v);
        &&& b.engine == Some(e2)
        &&& match c {
            Some(cert) => {
                &&& b.out.len() == a.out.len() + 1
                &&& b.out.subrange(0, a.out.len() as int) == a.out
                &&& b.out.last().topic@ == a.global_topic
                &&& b.out.last().message matches crate::publishing::OutboundMessage::Certificate(n)
                &&& n.cert@ == cert
                &&& b.heads == a.heads.insert(cert.zone_id, cert.block_hash)
                &&& (b.spent, b.cache) == finalized(a.spent, a.cache, seq![cert])
            },
            None => b.out == a.out && b.heads == a.heads && b.spent == a.spent,
        }
    }
}

/// How a proposal `p` takes a task from `a` to `b` (see
/// [`ZoneTaskState::handle_proposal`]).
pub open spec fn proposal_step(a: TaskView, b: TaskView, p: BlockModel) -> bool {
    &&& a.spent.subset_of(b.spent)
    &&& !(spends_fresh(p, a.spent) && a.engine is Some && spec_proposal_ok(a.engine->0, p)) ==> b.spent == a.spent
        && b.heads == a.heads
    &&& b.last_epoch == a.last_epoch
    &&& b.zone == a.zone
    &&& b.pending == a.pending
    &&& (b.engine is Some <==> a.engine is Some)
    &&& !spends_fresh(p, a.spent) ==> b.engine == a.engine && b.out == a.out && b.buffered == a.buffered
    &&& a.engine is None ==> b.out == a.out && b.heads == a.heads && b.buffered == a.buffered
    &&& (spends_fresh(p, a.spent) && a.engine is Some && spec_proposal_ok(a.engine->0, p)) ==> votes_for(
        b.out,
        a.out,
        p.block_hash,
        a.consensus_topic,
    )
    &&& (spends_fresh(p, a.spent) && a.engine is Some && spec_proposal_ok(a.engine->0, p)) ==> exists|
        v: VoteModel,
        cache: Map<[u8; 32], (ZoneId, Seq<Nullifier>)>,
    | #![trigger v.signature, cache.dom()]
    {
        let e = a.engine->0;
        let voted = ZoneState { ticks_in_round: 0, fork_recovery_used: false, ..spec_after_vote(e, p) };
        &&& v.zone_id == e.zone_id
        &&& v.epoch == e.epoch
        &&& v.block_hash == p.block_hash
        &&& v.voter_id == e.my_validator_id
        &&& vote_step(
            (TaskView { engine: Some(voted), out: b.out.subrange(0, a.out.len() + 1int), cache, ..a }),
            b,
            v,
        )
    }
    &&& (spends_fresh(p, a.spent) && a.engine is Some && !spec_proposal_ok(a.engine->0, p)) ==> {
        let e = a.engine->0;
        &&& b.engine == a.engine
        &&& b.out == a.out
        &&& b.buffered == if p.header.parent_hash != e.parent_hash && p.header.epoch == e.epoch
            && p.header.height >= e.height {
            Some(p)
        } else {
            a.buffered
        }
    }
}

/// How retrying the buffered proposal takes a task from `a` to `b` (see
/// [`ZoneTaskState::retry_buffered_proposal`]).
pub open spec fn retry_step(a: TaskView, b: TaskView) -> bool {
    &&& a.spent.subset_of(b.spent)
    &&& b.last_epoch == a.last_epoch
    &&& b.zone == a.zone
    &&& b.pending == a.pending
    &&& (b.engine is Some <==> a.engine is Some)
    &&& heads_kept(a.heads, b.heads)
    &&& a.buffered is None ==> b.engine == a.engine && b.out == a.out
    &&& a.buffered matches Some(p) ==> {
        &&& !spends_fresh(p, a.spent) ==> b.buffered is None && b.engine == a.engine && b.out == a.out
        &&& spends_fresh(p, a.spent) && a.engine is None ==> b.buffered is None && b.out == a.out
        &&& (spends_fresh(p, a.spent) && a.engine is Some) ==> {
            let e = a.engine->0;
            &&& p.header.height < e.height ==> b.buffered is None && b.engine == a.engine && b.out == a.out
            &&& p.header.height >= e.height && p.header.parent_hash != e.parent_hash ==> b.buffered == Some(p)
                && b.engine == a.engine && b.out == a.out
            &&& p.header.height >= e.height && p.header.parent_hash == e.parent_hash ==> {
                &&& b.buffered is None
                &&& spec_proposal_ok(e, p) ==> votes_for(b.out, a.out, p.block_hash, a.consensus_topic)
                &&& !spec_proposal_ok(e, p) ==> b.engine == a.engine && b.out == a.out
                &&& spec_proposal_ok(e, p) ==> exists|v: VoteModel| #![trigger v.signature] {
                    let voted = ZoneState { ticks_in_round: 0, fork_recovery_used: false, ..spec_after_vote(e, p) };
                    &&& v.zone_id == e.zone_id
                    &&& v.epoch == e.epoch
                    &&& v.block_hash == p.block_hash
                    &&& v.voter_id == e.my_validator_id
                    &&& vote_step(
                        (TaskView { engine: Some(voted), buffered: None, out: b.out.subrange(0, a.out.len() + 1int), ..a }),
                        b,
                        v,
                    )
                }
            }
        }
    }
    &&& b.out == a.out ==> b.spent == a.spent && b.heads == a.heads
}

/// How moving to a newer epoch `epoch` takes a task from `a` to `b`, with
/// this node's zones `assigned` and the zone's sampled committee
/// `committee` (see [`ZoneTaskState::check_epoch_transition`]).
pub open spec fn epoch_step(
    a: TaskView,
    b: TaskView,
    epoch: u64,
    assigned: Seq<ZoneId>,
    committee: Seq<crate::types::ValidatorModel>,
    my_id: [u8; 32],
    cfg: ZephyrConfig,
) -> bool {
    let on = assigned.contains(a.zone);
    &&& b.spent == a.spent
    &&& b.zone == a.zone
    &&& b.last_epoch == epoch
    &&& b.out == a.out
    &&& b.heads == a.heads
    &&& b.buffered == a.buffered
    &&& b.consensus_topic == a.consensus_topic
    &&& b.global_topic == a.global_topic
    &&& b.pending_max == a.pending_max
    &&& on ==> (b.engine matches Some(e) && e.epoch == epoch && e.committee == committee)
    &&& !on ==> b.engine is None
    &&& a.engine matches Some(e0) ==> on ==> b.engine == Some(
        spec_advance_to_epoch(
            if e0.consecutive_timeouts >= STALL_TIMEOUTS {
                ZoneState { force_adopt_next_cert: true, ..e0 }
            } else {
                e0
            },
            epoch,
            committee,
        ),
    )
    &&& a.engine is None ==> on ==> fresh_engine(b.engine, a.heads, a.zone, epoch, committee, my_id, cfg)
    &&& on ==> b.pending == a.pending.filter(crate::consensus::pending_certs::epoch_at_least(epoch))
    &&& (a.engine is Some && !on) ==> b.pending.len() == 0
    &&& (a.engine is None && !on) ==> b.pending == a.pending
}

/// Whether `engine` is the fresh engine a zone starts in `epoch`: the
/// committee given, round and height zero, on the zone's known head (the
/// zero hash when none is known).
pub open spec fn fresh_engine(
    engine: Option<ZoneState>,
    heads: Map<ZoneId, [u8; 32]>,
    zone: ZoneId,
    epoch: u64,
    committee: Seq<crate::types::ValidatorModel>,
    my_id: [u8; 32],
    cfg: ZephyrConfig,
) -> bool {
    engine matches Some(e) && {
        &&& e == crate::consensus::engine::spec_new(zone, epoch, committee, my_id, e.parent_hash, cfg, zone as usize)
        &&& heads.contains_key(zone) ==> e.parent_hash == heads[zone]
        &&& !heads.contains_key(zone) ==> forall|i: int| 0 <= i < 32 ==> e.parent_hash@[i] == 0
    }
}

/// The engine after a round timeout handled with `pending_len` buffered
/// certificates: the round rotates, and fork recovery is armed when the
/// zone looks stalled; with a counter at its limit nothing changes.
pub open spec fn timed_out_engine(e: ZoneState, pending_len: nat) -> ZoneState {
    if e.round < u64::MAX && e.consecutive_timeouts < u32::MAX {
        let e2 = spec_timeout_round(e);
        if e2.consecutive_timeouts >= STALL_TIMEOUTS || pending_len >= STALL_PENDING_CERTS {
            ZoneState { force_adopt_next_cert: true, ..e2 }
        } else {
            e2
        }
    } else {
        e
    }
}

/// The engine after the tick of a round tick: one more tick, then the
/// timeout when the round ran past its (backed-off) limit.
pub open spec fn ticked_engine(e: ZoneState, timeout: u32, pending_len: nat) -> ZoneState {
    let e1 = if e.ticks_in_round < u32::MAX { spec_tick(e) } else { e };
    if timeout <= u32::MAX / 4 && e1.ticks_in_round >= crate::consensus::engine::effective_timeout(
        timeout,
        e1.consecutive_timeouts,
    ) {
        timed_out_engine(e1, pending_len)
    } else {
        e1
    }
}

/// How the periodic drain takes a task from `a` to `b` (see
/// [`ZoneTaskState::periodic_drain`]).
pub open spec fn drain_tick_step(a: TaskView, b: TaskView) -> bool {
    &&& a.spent.subset_of(b.spent)
    &&& b.zone == a.zone
    &&& b.last_epoch == a.last_epoch
    &&& (b.engine is Some <==> a.engine is Some)
    &&& a.engine matches Some(e) ==> (e.ticks_in_round % DRAIN_INTERVAL_TICKS != 0 || a.pending.len() == 0) ==> {
        &&& b.engine == a.engine
        &&& b.out == a.out
        &&& b.heads == a.heads
    }
    &&& a.engine matches Some(e) ==> (e.ticks_in_round % DRAIN_INTERVAL_TICKS == 0 && a.pending.len() > 0) ==> exists|
        mid: TaskView,
        ds: Seq<CertificateModel>,
    | #![trigger mid.heads, ds.len()]
    {
        &&& mid.engine matches Some(e2) && drained(e, a.pending, ds, e2, mid.pending)
        &&& mid.heads == heads_with(a.heads, ds)
        &&& mid.spent == a.spent
        &&& mid.out == a.out
        &&& mid.zone == a.zone
        &&& mid.last_epoch == a.last_epoch
        &&& mid.buffered == a.buffered
        &&& mid.consensus_topic == a.consensus_topic
        &&& ds.len() > 0 ==> retry_step(mid, b)
        &&& ds.len() == 0 ==> b == mid
    }
}

/// How a leader's proposal attempt takes a task from `a` to `b`, where
/// `m` is the zone's mempool beforehand and `max` the block size the task
/// drains (see [`ZoneTaskState::try_propose`]).
pub open spec fn propose_task_step(a: TaskView, b: TaskView, m: Option<MempoolModel>, max: usize) -> bool {
    &&& a.spent.subset_of(b.spent)
    &&& b.zone == a.zone
    &&& b.last_epoch == a.last_epoch
    &&& (b.engine is Some <==> a.engine is Some)
    &&& a.engine is None ==> b.out == a.out
    &&& a.engine matches Some(e) ==> (!spec_is_leader(e) || e.warmup_ticks > 0) ==> b.engine == a.engine && b.out == a.out
        && b.heads == a.heads
    &&& a.engine matches Some(e) ==> (spec_is_leader(e) && e.warmup_ticks == 0) ==> {
        &&& (e.pending_proposal is Some && e.rebroadcast_count >= MAX_PROPOSAL_REBROADCASTS) ==> b.engine == a.engine
            && b.out == a.out
        &&& (e.pending_proposal is Some && e.rebroadcast_count < MAX_PROPOSAL_REBROADCASTS) ==> {
            &&& b.engine == Some(ZoneState { rebroadcast_count: (e.rebroadcast_count + 1) as u32, ..e })
            &&& b.out.len() == a.out.len() + 1
            &&& b.out.subrange(0, a.out.len() as int) == a.out
            &&& b.out.last().topic@ == a.consensus_topic
            &&& b.out.last().message matches crate::publishing::OutboundMessage::Proposal(blk) && blk@
                == e.pending_proposal->0
        }
        &&& e.pending_proposal is None ==> {
            &&& b.out.len() > a.out.len()
            &&& b.out.subrange(0, a.out.len() as int) == a.out
            &&& b.out[a.out.len() as int].topic@ == a.consensus_topic
            &&& b.out[a.out.len() as int].message matches crate::publishing::OutboundMessage::Proposal(blk)
                && blk.header.zone_id == e.zone_id && blk.header.epoch == e.epoch && blk.header.height == e.height
                && blk.header.parent_hash == e.parent_hash && blk.header.proposer_id == e.my_validator_id
            &&& m matches Some(mm) ==> (b.out[a.out.len() as int].message matches crate::publishing::OutboundMessage::Proposal(
                blk,
            ) && blk@.transactions == crate::consensus::engine::spec_block_spends(
                e,
                mm.entries.subrange(0, crate::mempool::take_count(mm, max)),
            ))
        }
    }
}

/// How a certificate `c` takes a task from `a` to `b` (see
/// [`ZoneTaskState::handle_certificate`]).
pub open spec fn cert_step(a: TaskView, b: TaskView, c: CertificateModel, ns: Seq<Nullifier>) -> bool {
    &&& a.spent.subset_of(b.spent)
    &&& b.zone == a.zone
    &&& b.last_epoch == a.last_epoch
    &&& (b.engine is Some <==> a.engine is Some)
    &&& a.engine is None ==> b.heads == a.heads.insert(c.zone_id, c.block_hash) && b.out == a.out
        && b.spent == finalized(a.spent, cache_with(a.cache, c, ns), seq![c]).0
    &&& (a.engine is Some && c.height < u64::MAX && a.engine->0.round < u64::MAX && a.engine->0.height < u64::MAX) ==> {
        let (e1, applied) = spec_apply_certificate(a.engine->0, c);
        &&& applied ==> b.heads.dom().contains(c.zone_id)
        &&& applied ==> heads_kept(a.heads, b.heads)
        &&& applied ==> exists|mid: TaskView, ds: Seq<CertificateModel>, pend: Seq<CertificateModel>|
            #![trigger mid.heads, ds.len(), pend.len()]
        {
            let e1c = ZoneState { fork_recovery_used: false, ..e1 };
            &&& mid.spent == finalized(a.spent, cache_with(a.cache, c, ns), seq![c] + ds).0
            &&& mid.zone == a.zone
            &&& mid.last_epoch == a.last_epoch
            &&& mid.buffered == a.buffered
            &&& mid.consensus_topic == a.consensus_topic
            &&& mid.out == a.out
            &&& mid.heads == heads_with(a.heads.insert(c.zone_id, c.block_hash), ds)
            &&& mid.engine matches Some(e2) && drained(e1c, a.pending, ds, e2, pend)
            &&& mid.pending == purged(pend, a.pending_max)
            &&& retry_step(mid, b)
        }
        &&& !applied ==> {
            &&& b.engine == Some(e1)
            &&& b.out == a.out
            &&& b.heads == a.heads
            &&& b.spent == a.spent
            &&& b.pending == if c.block_hash != e1.parent_hash && !has_block(a.pending, c.block_hash)
                && a.pending.len() < a.pending_max {
                a.pending.push(c)
            } else {
                a.pending
            }
        }
    }
}

/// How a message of a consensus topic takes a task from `a` to `b`:
/// proposals and votes as their handlers do; anything else leaves it.
pub open spec fn msg_step(a: TaskView, b: TaskView, m: ZephyrZoneMessage) -> bool {
    match m {
        ZephyrZoneMessage::Proposal(p) => proposal_step(a, b, p@),
        ZephyrZoneMessage::Vote(v) => vote_step(a, b, v@),
        _ => b == a,
    }
}

/// What an epoch transition needs to know about the new epoch.
pub struct EpochSnapshot {
    /// The epoch now current.
    pub current_epoch: u64,
    /// The randomness the epoch's committees are drawn with.
    pub randomness_seed: [u8; 32],
    /// The zones this node serves in the epoch.
    pub assigned_zones: Vec<ZoneId>,
}

/// The consensus task of one zone.
pub struct ZoneTaskState {
    zone_id: ZoneId,
    engine: Option<ZoneConsensus>,
    pending_certs: PendingCertBuffer,
    block_tx_cache: BlockMap<(ZoneId, Vec<String>)>,
    block_nullifiers: BlockMap<(ZoneId, Vec<Nullifier>)>,
    deferred_cleanups: BlockMap<ZoneId>,
    last_buffered_proposal: Option<Block>,
    last_known_epoch: u64,
    validators: Vec<ValidatorInfo>,
    my_validator_id: [u8; 32],
    config: ZephyrConfig,
    zone_topic: String,
    consensus_topic: String,
    global_topic: String,
    nullifier_set: NullifierSet,
}

impl ZoneTaskState {
    /// Internal consistency: a running engine belongs to this zone and is
    /// well formed, the caches and the nullifier set are well formed, and
    /// the certificate buffer's bound can be scaled safely.
    pub closed spec fn wf(&self) -> bool {
        &&& match self.engine {
            Some(e) => e.wf() && e@.zone_id == self.zone_id,
            None => true,
        }
        &&& self.block_tx_cache.wf()
        &&& self.block_nullifiers.wf()
        &&& self.deferred_cleanups.wf()
        &&& self.nullifier_set.wf()
        &&& self.nullifier_set@.zone_id == self.zone_id
        &&& self.pending_certs@.max_size * 3 <= usize::MAX
        &&& self.pending_certs@.certs.len() <= self.pending_certs@.max_size
    }

    /// The zone served.
    pub closed spec fn spec_zone(&self) -> ZoneId {
        self.zone_id
    }

    /// The engine's state, when this node serves the zone.
    pub closed spec fn spec_engine(&self) -> Option<ZoneState> {
        match self.engine {
            Some(e) => Some(e@),
            None => None,
        }
    }

    /// The finalized nullifiers of the zone.
    pub closed spec fn spec_spent(&self) -> Set<Nullifier> {
        self.nullifier_set@.nullifiers
    }

    /// The proposal kept for a retry once the head catches up.
    pub closed spec fn spec_buffered(&self) -> Option<BlockModel> {
        match self.last_buffered_proposal {
            Some(b) => Some(b@),
            None => None,
        }
    }

    /// The last epoch moved to.
    pub closed spec fn spec_last_epoch(&self) -> u64 {
        self.last_known_epoch
    }

    /// The certificates waiting for their parent.
    pub closed spec fn spec_pending_len(&self) -> nat {
        self.pending_certs@.certs.len()
    }

    /// The view of the zone state with the zone heads `heads` and the published
    /// messages `out`.
    pub open spec fn view_with(&self, heads: Map<ZoneId, [u8; 32]>, out: Seq<Publication>) -> TaskView {
        TaskView {
            engine: self.spec_engine(),
            spent: self.spec_spent(),
            buffered: self.spec_buffered(),
            pending: self.spec_pending(),
            pending_max: self.spec_pending_max(),
            last_epoch: self.spec_last_epoch(),
            zone: self.spec_zone(),
            consensus_topic: self.spec_consensus_topic(),
            global_topic: self.spec_global_topic(),
            heads,
            out,
            cache: self.spec_block_nullifiers(),
        }
    }

    /// The nullifiers cached per block hash, with the block's zone.
    pub closed spec fn spec_block_nullifiers(&self) -> Map<[u8; 32], (ZoneId, Seq<Nullifier>)> {
        self.block_nullifiers.map().map_values(|v: (ZoneId, Vec<Nullifier>)| (v.0, v.1@))
    }

    /// The certified blocks whose mempool cleanup waits for their
    /// nullifiers, with their zone.
    pub closed spec fn spec_deferred(&self) -> Map<[u8; 32], ZoneId> {
        self.deferred_cleanups.map()
    }

    /// The blocks waiting for their cleanup, in the order they were
    /// recorded.
    pub closed spec fn spec_deferred_keys(&self) -> Seq<[u8; 32]> {
        self.deferred_cleanups.key_seq()
    }

    /// The buffered certificates, oldest first.
    pub closed spec fn spec_pending(&self) -> Seq<CertificateModel> {
        self.pending_certs@.certs
    }

    /// How many certificates the buffer holds at most.
    pub closed spec fn spec_pending_max(&self) -> nat {
        self.pending_certs@.max_size as nat
    }

    /// The zone's consensus topic.
    pub closed spec fn spec_consensus_topic(&self) -> Seq<char> {
        self.consensus_topic@
    }

    /// The committee this zone samples for an epoch seed, from the known
    /// validators and the configured committee size.
    pub closed spec fn spec_committee_for(&self, randomness_seed: Seq<u8>) -> Seq<crate::types::ValidatorModel> {
        crate::committee::sampled_committee(
            randomness_seed,
            self.zone_id,
            crate::types::validators_model(self.validators@),
            self.config.committee_size,
        )
    }

    /// The task's configuration.
    pub closed spec fn spec_config(&self) -> ZephyrConfig {
        self.config
    }

    /// This node's validator id.
    pub closed spec fn spec_my_id(&self) -> [u8; 32] {
        self.my_validator_id
    }

    /// The zone's transaction topic.
    pub closed spec fn spec_zone_topic(&self) -> Seq<char> {
        self.zone_topic@
    }

    /// The global topic.
    pub closed spec fn spec_global_topic(&self) -> Seq<char> {
        self.global_topic@
    }

    /// A task for `zone_id` that does not serve the zone yet; it starts
    /// serving at the first epoch transition that assigns the zone to this
    /// node (or with [`ZoneTaskState::start_engine`]).
    pub fn new(
        zone_id: ZoneId,
        validators: Vec<ValidatorInfo>,
        my_validator_id: [u8; 32],
        config: ZephyrConfig,
        max_pending_certs: usize,
        zone_topic: String,
        consensus_topic: String,
        global_topic: String,
    ) -> (r: Self)
        requires
            max_pending_certs * 3 <= usize::MAX,
        ensures
            r.wf(),
            r.spec_zone() == zone_id,
            r.spec_engine() is None,
            r.spec_spent() == Set::<Nullifier>::empty(),
            r.spec_buffered() is None,
            r.spec_last_epoch() == 0,
            r.spec_pending_len() == 0,
            r.spec_consensus_topic() == consensus_topic@,
            r.spec_global_topic() == global_topic@,
            r.spec_my_id() == my_validator_id,
            r.spec_config() == config,
            forall|seed: Seq<u8>| #[trigger] r.spec_committee_for(seed) == crate::committee::sampled_committee(
                seed,
                zone_id,
                crate::types::validators_model(validators@),
                config.committee_size,
            ),
    {
        ZoneTaskState {
            zone_id,
            engine: None,
            pending_certs: PendingCertBuffer::new(max_pending_certs),
            block_tx_cache: BlockMap::new(),
            block_nullifiers: BlockMap::new(),
            deferred_cleanups: BlockMap::new(),
            last_buffered_proposal: None,
            last_known_epoch: 0,
            validators,
            my_validator_id,
            config,
            zone_topic,
            consensus_topic,
            global_topic,
            nullifier_set: NullifierSet::in_memory(zone_id),
        }
    }

    /// Start serving the zone in `epoch` with the committee drawn from
    /// `randomness_seed`, on top of the zone head recorded in the shared
    /// store (the genesis head when none is).
    pub fn start_engine(&mut self, shared: &ZoneShared, epoch: u64, randomness_seed: &[u8; 32])
        requires
            old(self).wf(),
        ensures
            final(self).wf(),
            final(self).spec_config() == old(self).spec_config(),
            final(self).spec_engine() matches Some(e) && e.epoch == epoch && e.zone_id == old(self).spec_zone()
                && e.height == 0 && e.my_validator_id == old(self).spec_my_id()
                && e.committee == old(self).spec_committee_for(randomness_seed@),
            fresh_engine(
                final(self).spec_engine(),
                shared.zone_heads@,
                old(self).spec_zone(),
                epoch,
                old(self).spec_committee_for(randomness_seed@),
                old(self).spec_my_id(),
                old(self).spec_config(),
            ),
            final(self).spec_pending() == old(self).spec_pending(),
            final(self).spec_pending_max() == old(self).spec_pending_max(),
            final(self).spec_buffered() == old(self).spec_buffered(),
            final(self).spec_spent() == old(self).spec_spent(),
            final(self).spec_last_epoch() == old(self).spec_last_epoch(),
            final(self).spec_zone() == old(self).spec_zone(),
            final(self).spec_consensus_topic() == old(self).spec_consensus_topic(),
            final(self).spec_global_topic() == old(self).spec_global_topic(),
            final(self).spec_zone_topic() == old(self).spec_zone_topic(),
    {
        let committee = sample_committee(
            randomness_seed,
            self.zone_id,
            self.validators.as_slice(),
            self.config.committee_size,
        );
        let prev_head = shared.zone_heads.get_or_genesis(self.zone_id);
        self.engine = Some(
            ZoneConsensus::new(
                self.zone_id,
                epoch,
                committee,
                self.my_validator_id,
                prev_head,
                self.config,
                self.zone_id as usize,
            ),
        );
    }

    /// Whether every nullifier spent by `proposal` is still unspent in this
    /// zone.
    pub fn verify_proposal_transactions(&self, proposal: &Block) -> (r: bool)
        requires
            self.wf(),
        ensures
            r == forall|i: int| 0 <= i < proposal.transactions@.len()
                ==> !self.spec_spent().contains(#[trigger] proposal.transactions@[i].nullifier),
    {
        let mut i: usize = 0;
        while i < proposal.transactions.len()
            invariant
                self.wf(),
                i <= proposal.transactions@.len(),
                forall|j: int| 0 <= j < i ==> !self.spec_spent().contains(#[trigger] proposal.transactions@[j].nullifier),
            decreases proposal.transactions@.len() - i,
        {
            if self.nullifier_set.contains(&proposal.transactions[i].nullifier) {
                return false;
            }
            i += 1;
        }
        true
    }

    /// Insert the cached nullifiers of a finalized block into the zone's
    /// nullifier set.
    pub fn persist_finalized_nullifiers(&mut self, block_hash: &[u8; 32])
        requires
            old(self).wf(),
        ensures
            final(self).wf(),
            final(self).spec_spent() == if old(self).spec_block_nullifiers().contains_key(*block_hash) {
                old(self).spec_spent() + old(self).spec_block_nullifiers()[*block_hash].1.to_set()
            } else {
                old(self).spec_spent()
            },
            final(self).spec_engine() == old(self).spec_engine(),
            final(self).spec_block_nullifiers() == old(self).spec_block_nullifiers(),
    {
        persist_nullifiers(block_hash, &self.block_nullifiers, &mut self.nullifier_set);
    }

    /// Finalize a certificate locally: persist the block's nullifiers,
    /// move the zone head, count it, and clean the mempool.
    fn finalize(&mut self, shared: &mut ZoneShared, cert: &FinalityCertificate)
        requires
            old(self).wf(),
            shared_wf(old(shared)),
        ensures
            final(self).wf(),
            final(self).spec_config() == old(self).spec_config(),
            shared_wf(final(shared)),
            final(shared).zone_heads@ == old(shared).zone_heads@.insert(cert.zone_id, cert.block_hash),
            old(self).spec_spent().subset_of(final(self).spec_spent()),
            (final(self).spec_spent(), final(self).spec_block_nullifiers()) == finalized(
                old(self).spec_spent(),
                old(self).spec_block_nullifiers(),
                seq![cert@],
            ),
            final(self).spec_engine() == old(self).spec_engine(),
            final(self).spec_buffered() == old(self).spec_buffered(),
            final(self).spec_pending_len() == old(self).spec_pending_len(),
            final(self).spec_pending() == old(self).spec_pending(),
            final(self).spec_pending_max() == old(self).spec_pending_max(),
            final(self).spec_last_epoch() == old(self).spec_last_epoch(),
            final(self).spec_zone() == old(self).spec_zone(),
            final(self).spec_consensus_topic() == old(self).spec_consensus_topic(),
            final(self).spec_global_topic() == old(self).spec_global_topic(),
    {
        persist_nullifiers(&cert.block_hash, &self.block_nullifiers, &mut self.nullifier_set);
        apply_certificate_locally(cert, shared, &self.block_tx_cache);
        cleanup_mempool_after_cert(
            cert,
            &mut shared.mempool,
            &mut self.block_nullifiers,
            &mut self.deferred_cleanups,
        );
        proof {
            let c0 = old(self).spec_block_nullifiers();
            let h = cert.block_hash;
            let s0 = old(self).spec_spent();
            assert(seq![cert@].drop_last() =~= Seq::<CertificateModel>::empty());
            assert(seq![cert@].last().block_hash == h);
            assert(finalized(s0, c0, Seq::<CertificateModel>::empty()) == (s0, c0));
            assert(self.spec_block_nullifiers() =~= c0.remove(h));
            if c0.contains_key(h) {
                assert(c0[h].1 == old(self).block_nullifiers.map()[h].1@);
                assert(self.spec_spent() == s0 + c0[h].1.to_set());
            } else {
                assert(self.spec_spent() == s0);
            }
        }
    }

    /// Publish an action; when it is this node's own vote, count it at once
    /// and, if that completes a quorum, finalize and publish the
    /// certificate too.
    pub fn publish_and_self_certify(
        &mut self,
        shared: &mut ZoneShared,
        action: ConsensusAction,
        out: &mut Vec<Publication>,
    )
        requires
            old(self).wf(),
            shared_wf(old(shared)),
        ensures
            final(self).wf(),
            final(self).spec_config() == old(self).spec_config(),
            shared_wf(final(shared)),
            final(out)@.len() >= old(out)@.len() + 1,
            final(out)@.subrange(0, old(out)@.len() as int) == old(out)@,
            publishes(final(out)@[old(out)@.len() as int], action, old(self).spec_consensus_topic(), old(self).spec_global_topic()),
            old(self).spec_spent().subset_of(final(self).spec_spent()),
            final(self).spec_buffered() == old(self).spec_buffered(),
            final(self).spec_last_epoch() == old(self).spec_last_epoch(),
            final(self).spec_zone() == old(self).spec_zone(),
            final(self).spec_consensus_topic() == old(self).spec_consensus_topic(),
            final(self).spec_global_topic() == old(self).spec_global_topic(),
            final(self).spec_pending_len() == old(self).spec_pending_len(),
            final(self).spec_pending() == old(self).spec_pending(),
            final(self).spec_engine() is Some <==> old(self).spec_engine() is Some,
            heads_kept(old(shared).zone_heads@, final(shared).zone_heads@),
            action matches ConsensusAction::BroadcastVote(v) ==> vote_step(
                (TaskView {
                    out: final(out)@.subrange(0, old(out)@.len() + 1int),
                    ..old(self).view_with(old(shared).zone_heads@, old(out)@)
                }),
                final(self).view_with(final(shared).zone_heads@, final(out)@),
                v@,
            ),
            !(action is BroadcastVote) ==> {
                &&& final(out)@.len() == old(out)@.len() + 1
                &&& final(self).spec_engine() == old(self).spec_engine()
                &&& final(self).spec_spent() == old(self).spec_spent()
                &&& final(shared).zone_heads@ == old(shared).zone_heads@
            },
    {
        let p = publish_action(
            &action,
            &self.consensus_topic,
            &self.global_topic,
            &self.block_tx_cache,
            &self.block_nullifiers,
        );
        out.push(p);
        let ghost mid = self.view_with(shared.zone_heads@, out@);
        match action {
            ConsensusAction::BroadcastVote(vote) => {
                self.handle_vote(shared, vote, out);
                proof {
                    let n = old(out)@.len() as int;
                    assert(out@.subrange(0, n + 1) =~= mid.out);
                    assert(out@.subrange(0, n + 1)[n] == out@[n]);
                    assert(out@.subrange(0, n) =~= old(out)@) by {
                        assert forall|k: int| 0 <= k < n implies out@[k] == old(out)@[k] by {
                            assert(out@.subrange(0, n + 1)[k] == out@[k]);
                        }
                    }
                }
            },
            _ => {},
        }
    }

    /// Handle a vote from the zone's consensus topic. A vote that
    /// completes a quorum finalizes the block and publishes its
    /// certificate.
    pub fn handle_vote(&mut self, shared: &mut ZoneShared, vote: BlockVote, out: &mut Vec<Publication>)
        requires
            old(self).wf(),
            shared_wf(old(shared)),
        ensures
            final(self).wf(),
            final(self).spec_config() == old(self).spec_config(),
            shared_wf(final(shared)),
            old(self).spec_spent().subset_of(final(self).spec_spent()),
            final(self).spec_buffered() == old(self).spec_buffered(),
            final(self).spec_last_epoch() == old(self).spec_last_epoch(),
            final(self).spec_zone() == old(self).spec_zone(),
            final(self).spec_pending_len() == old(self).spec_pending_len(),
            final(self).spec_pending() == old(self).spec_pending(),
            final(self).spec_engine() is Some <==> old(self).spec_engine() is Some,
            vote_step(old(self).view_with(old(shared).zone_heads@, old(out)@), final(self).view_with(final(shared).zone_heads@, final(out)@), vote@),
            final(self).spec_consensus_topic() == old(self).spec_consensus_topic(),
            final(self).spec_global_topic() == old(self).spec_global_topic(),
            final(out)@.len() >= old(out)@.len(),
            final(out)@.subrange(0, old(out)@.len() as int) == old(out)@,
            heads_kept(old(shared).zone_heads@, final(shared).zone_heads@),
            old(self).spec_engine() is None ==> final(self).spec_engine() is None && final(out)@ == old(out)@
                && final(shared).zone_heads@ == old(shared).zone_heads@,
            old(self).spec_engine() matches Some(e) ==> e.round < u64::MAX && e.height < u64::MAX ==> {
                let (e2, c) = spec_receive_vote(e, vote@);
                &&& final(self).spec_engine() == Some(e2)
                &&& match c {
                    Some(cert) => {
                        &&& final(out)@.len() == old(out)@.len() + 1
                        &&& final(out)@.subrange(0, old(out)@.len() as int) == old(out)@
                        &&& final(out)@.last().topic@ == old(self).spec_global_topic()
                        &&& final(out)@.last().message matches crate::publishing::OutboundMessage::Certificate(n)
                        &&& n.cert@ == cert
                        &&& final(shared).zone_heads@ == old(shared).zone_heads@.insert(cert.zone_id, cert.block_hash)
                    },
                    None => final(out)@ == old(out)@ && final(shared).zone_heads@ == old(shared).zone_heads@,
                }
            },
    {
        let mut eng = match self.engine.take() {
            Some(e) => e,
            None => return,
        };
        if !(eng.round() < u64::MAX && eng.height() < u64::MAX) {
            self.engine = Some(eng);
            return;
        }
        match eng.receive_vote(vote) {
            Some(action) => {
                match &action {
                    ConsensusAction::BroadcastCertificate(cert) => {
                        self.finalize(shared, cert);
                    },
                    _ => {},
                }
                let p = publish_action(
                    &action,
                    &self.consensus_topic,
                    &self.global_topic,
                    &self.block_tx_cache,
                    &self.block_nullifiers,
                );
                out.push(p);
                proof {
                    assert(out@.subrange(0, old(out)@.len() as int) =~= old(out)@);
                }
            },
            None => {},
        }
        self.engine = Some(eng);
    }

    /// Drop the cached nullifiers of certified blocks whose cleanup had to
    /// wait for them, and remove those nullifiers from the mempool.
    pub fn resolve_deferred_cleanups(&mut self, shared: &mut ZoneShared)
        requires
            old(self).wf(),
            shared_wf(old(shared)),
        ensures
            final(self).wf(),
            shared_wf(final(shared)),
            final(self).spec_engine() == old(self).spec_engine(),
            final(self).spec_spent() == old(self).spec_spent(),
            final(self).spec_buffered() == old(self).spec_buffered(),
            final(self).spec_pending_len() == old(self).spec_pending_len(),
            final(self).spec_pending() == old(self).spec_pending(),
            final(self).spec_pending_max() == old(self).spec_pending_max(),
            final(self).spec_last_epoch() == old(self).spec_last_epoch(),
            final(self).spec_zone() == old(self).spec_zone(),
            final(self).spec_consensus_topic() == old(self).spec_consensus_topic(),
            final(self).spec_global_topic() == old(self).spec_global_topic(),
            final(shared).zone_heads@ == old(shared).zone_heads@,
            final(self).spec_deferred() == old(self).spec_deferred().remove_keys(
                old(self).spec_block_nullifiers().dom(),
            ),
            final(self).spec_block_nullifiers() == old(self).spec_block_nullifiers().remove_keys(
                old(self).spec_deferred().dom(),
            ),
            final(shared).mempool@ == cleaned(
                old(shared).mempool@,
                old(self).spec_zone(),
                resolved_lists(old(self).spec_deferred_keys(), old(self).spec_block_nullifiers()),
            ),
    {
        let keys = self.deferred_cleanups.keys();
        let ghost k0 = keys@;
        let ghost d0 = self.spec_deferred();
        let ghost b0 = self.spec_block_nullifiers();
        let ghost m0 = shared.mempool@;
        proof {
            self.deferred_cleanups.lemma_keys();
        }
        let mut i: usize = 0;
        while i < keys.len()
            invariant
                self.wf(),
                shared_wf(shared),
                i <= keys@.len(),
                keys@ == k0,
                k0.no_duplicates(),
                forall|h: [u8; 32]| #[trigger] d0.contains_key(h) <==> k0.contains(h),
                self.spec_engine() == old(self).spec_engine(),
                self.spec_spent() == old(self).spec_spent(),
                self.spec_buffered() == old(self).spec_buffered(),
                self.spec_pending_len() == old(self).spec_pending_len(),
                self.spec_pending() == old(self).spec_pending(),
                self.spec_pending_max() == old(self).spec_pending_max(),
                self.spec_last_epoch() == old(self).spec_last_epoch(),
                self.spec_zone() == old(self).spec_zone(),
                self.spec_consensus_topic() == old(self).spec_consensus_topic(),
                self.spec_global_topic() == old(self).spec_global_topic(),
                shared.zone_heads@ == old(shared).zone_heads@,
                forall|h: [u8; 32]| #[trigger] self.spec_deferred().contains_key(h) <==> (d0.contains_key(h)
                    && !(k0.subrange(0, i as int).contains(h) && b0.contains_key(h))),
                forall|h: [u8; 32]| #[trigger] self.spec_deferred().contains_key(h) ==> self.spec_deferred()[h] == d0[h],
                forall|h: [u8; 32]| #[trigger] self.spec_block_nullifiers().contains_key(h) <==> (b0.contains_key(h)
                    && !k0.subrange(0, i as int).contains(h)),
                forall|h: [u8; 32]| #[trigger] self.spec_block_nullifiers().contains_key(h)
                    ==> self.spec_block_nullifiers()[h] == b0[h],
                shared.mempool@ == cleaned(m0, self.spec_zone(), resolved_lists(k0.subrange(0, i as int), b0)),
            decreases keys@.len() - i,
        {
            let hash = keys[i];
            let ghost pre = k0.subrange(0, i as int);
            proof {
                assert(k0.subrange(0, i + 1) =~= pre.push(hash));
                assert(k0.subrange(0, i + 1).drop_last() =~= pre);
                assert(!pre.contains(hash)) by {
                    if pre.contains(hash) {
                        let j = choose|j: int| 0 <= j < pre.len() && pre[j] == hash;
                        assert(k0[j] == k0[i as int]);
                    }
                }
                assert(k0.contains(hash));
                let sub = k0.subrange(0, i + 1);
                assert forall|h: [u8; 32]| sub.contains(h) <==> (pre.contains(h) || h == hash) by {
                    if sub.contains(h) {
                        let j = choose|j: int| 0 <= j < sub.len() && #[trigger] sub[j] == h;
                        if j < i {
                            assert(pre[j] == h);
                        }
                    }
                    if pre.contains(h) {
                        let j = choose|j: int| 0 <= j < pre.len() && #[trigger] pre[j] == h;
                        assert(sub[j] == h);
                    }
                    if h == hash {
                        assert(sub[i as int] == h);
                    }
                }
            }
            proof {
                assert(k0.subrange(0, i + 1).last() == hash);
                assert(self.spec_block_nullifiers().contains_key(hash) == b0.contains_key(hash));
                assert(d0.contains_key(hash));
                assert(self.spec_deferred().contains_key(hash));
                if b0.contains_key(hash) {
                    assert(self.spec_block_nullifiers()[hash] == b0[hash]);
                    assert(self.spec_block_nullifiers()[hash] == (self.block_nullifiers.map()[hash].0,
                        self.block_nullifiers.map()[hash].1@));
                }
            }
            if self.block_nullifiers.contains_key(&hash) {
                match self.deferred_cleanups.remove(&hash) {
                    Some(_) => {
                        let ghost sbn = self.spec_block_nullifiers();
                        match self.block_nullifiers.remove(&hash) {
                            Some((_, nullifiers)) => {
                                proof {
                                    assert(b0[hash].1 == nullifiers@);
                                    assert(self.spec_block_nullifiers() =~= sbn.remove(hash));
                                }
                                let ghost lists = resolved_lists(pre, b0);
                                let ghost before_mp = shared.mempool@;
                                shared.mempool.remove_nullifiers(self.zone_id, nullifiers.as_slice());
                                proof {
                                    assert(lists.push(nullifiers@).drop_last() =~= lists);
                                    assert(lists.push(nullifiers@).last() == nullifiers@);
                                    assert(before_mp == cleaned(m0, self.zone_id, lists));
                                    assert(shared.mempool@ == cleaned(m0, self.zone_id, lists.push(nullifiers@)));
                                }
                            },
                            None => {},
                        }
                    },
                    None => {},
                }
                proof {
                    assert(resolved_lists(k0.subrange(0, i + 1), b0) == resolved_lists(pre, b0).push(b0[hash].1));
                }
            } else {
                proof {
                    assert(resolved_lists(k0.subrange(0, i + 1), b0) == resolved_lists(pre, b0));
                }
            }
            i += 1;
        }
        proof {
            assert(k0.subrange(0, i as int) =~= k0);
            assert(self.spec_deferred() =~= d0.remove_keys(b0.dom()));
            assert(self.spec_block_nullifiers() =~= b0.remove_keys(d0.dom()));
        }
    }

    /// Try again the proposal kept while the head lagged: a stale one is
    /// dropped, one still on another head is kept, and one on the head now
    /// is voted for.
    pub fn retry_buffered_proposal<S: Fn(&[u8]) -> Vec<u8>>(
        &mut self,
        shared: &mut ZoneShared,
        sign: &S,
        out: &mut Vec<Publication>,
    )
        requires
            old(self).wf(),
            shared_wf(old(shared)),
            forall|d: &[u8]| #[trigger] sign.requires((d,)),
        ensures
            final(self).wf(),
            final(self).spec_config() == old(self).spec_config(),
            shared_wf(final(shared)),
            old(self).spec_spent().subset_of(final(self).spec_spent()),
            final(self).spec_last_epoch() == old(self).spec_last_epoch(),
            final(self).spec_zone() == old(self).spec_zone(),
            final(self).spec_pending_len() == old(self).spec_pending_len(),
            final(self).spec_pending() == old(self).spec_pending(),
            final(self).spec_engine() is Some <==> old(self).spec_engine() is Some,
            old(self).spec_buffered() is None ==> final(self).spec_engine() == old(self).spec_engine()
                && final(out)@ == old(out)@,
            heads_kept(old(shared).zone_heads@, final(shared).zone_heads@),
            retry_step(old(self).view_with(old(shared).zone_heads@, old(out)@), final(self).view_with(final(shared).zone_heads@, final(out)@)),
            old(self).spec_buffered() matches Some(p) ==> {
                &&& !spends_fresh(p, old(self).spec_spent()) ==> final(self).spec_buffered() is None
                    && final(self).spec_engine() == old(self).spec_engine() && final(out)@ == old(out)@
                &&& spends_fresh(p, old(self).spec_spent()) && old(self).spec_engine() is None
                    ==> final(self).spec_buffered() is None && final(out)@ == old(out)@
                &&& (spends_fresh(p, old(self).spec_spent()) && old(self).spec_engine() is Some) ==> {
                    let e = old(self).spec_engine()->0;
                    &&& p.header.height < e.height ==> final(self).spec_buffered() is None
                        && final(self).spec_engine() == old(self).spec_engine() && final(out)@ == old(out)@
                    &&& p.header.height >= e.height && p.header.parent_hash != e.parent_hash
                        ==> final(self).spec_buffered() == Some(p)
                        && final(self).spec_engine() == old(self).spec_engine() && final(out)@ == old(out)@
                    &&& p.header.height >= e.height && p.header.parent_hash == e.parent_hash ==> {
                        &&& final(self).spec_buffered() is None
                        &&& spec_proposal_ok(e, p) ==> votes_for(final(out)@, old(out)@, p.block_hash, old(self).spec_consensus_topic())
                        &&& !spec_proposal_ok(e, p) ==> final(self).spec_engine() == old(self).spec_engine()
                            && final(out)@ == old(out)@
                    }
                }
            },
    {
        let proposal = match self.last_buffered_proposal.take() {
            Some(p) => p,
            None => return,
        };
        proof {
            lemma_spends_fresh(&proposal, self.spec_spent());
        }
        if !self.verify_proposal_transactions(&proposal) {
            return;
        }
        let mut eng = match self.engine.take() {
            Some(e) => e,
            None => return,
        };
        if proposal.header.height < eng.height() {
            self.engine = Some(eng);
            return;
        }
        if !crate::bytes::bytes32_eq(&proposal.header.parent_hash, eng.parent_hash()) {
            self.engine = Some(eng);
            self.last_buffered_proposal = Some(proposal);
            return;
        }
        match eng.vote_on_proposal(&proposal, sign) {
            Some(action) => {
                eng.reset_timeout();
                let _ = eng.take_fork_recovery_used();
                self.engine = Some(eng);
                let ghost at_call = self.view_with(shared.zone_heads@, out@);
                let ghost v = match &action {
                    ConsensusAction::BroadcastVote(vote) => vote@,
                    _ => arbitrary(),
                };
                self.publish_and_self_certify(shared, action, out);
                proof {
                    let a = old(self).view_with(old(shared).zone_heads@, old(out)@);
                    let b = self.view_with(shared.zone_heads@, out@);
                    let e = a.engine->0;
                    let voted = ZoneState { ticks_in_round: 0, fork_recovery_used: false, ..spec_after_vote(e, proposal@) };
                    assert((TaskView { engine: Some(voted), buffered: None, out: b.out.subrange(0, a.out.len() + 1int), ..a })
                        == (TaskView { out: b.out.subrange(0, a.out.len() + 1int), ..at_call }));
                    assert(v.signature == v.signature);
                }
            },
            None => {
                self.engine = Some(eng);
            },
        }
    }

    /// Handle a proposal from the zone's consensus topic: refuse it if it
    /// spends a finalized nullifier; otherwise cache its nullifiers and
    /// vote for it if the engine accepts it, or keep it for a retry if it
    /// builds on another head at our height or above.
    pub fn handle_proposal<S: Fn(&[u8]) -> Vec<u8>>(
        &mut self,
        shared: &mut ZoneShared,
        proposal: Block,
        sign: &S,
        out: &mut Vec<Publication>,
    )
        requires
            old(self).wf(),
            shared_wf(old(shared)),
            forall|d: &[u8]| #[trigger] sign.requires((d,)),
        ensures
            final(self).wf(),
            shared_wf(final(shared)),
            old(self).spec_spent().subset_of(final(self).spec_spent()),
            final(self).spec_last_epoch() == old(self).spec_last_epoch(),
            final(self).spec_zone() == old(self).spec_zone(),
            final(self).spec_pending_len() == old(self).spec_pending_len(),
            final(self).spec_pending() == old(self).spec_pending(),
            proposal_step(old(self).view_with(old(shared).zone_heads@, old(out)@), final(self).view_with(final(shared).zone_heads@, final(out)@), proposal@),
            final(self).spec_engine() is Some <==> old(self).spec_engine() is Some,
            old(self).spec_engine() is None ==> final(out)@ == old(out)@ && final(shared).zone_heads@
                == old(shared).zone_heads@,
            (exists|i: int| 0 <= i < proposal.transactions@.len()
                && old(self).spec_spent().contains(#[trigger] proposal.transactions@[i].nullifier))
                ==> final(self).spec_engine() == old(self).spec_engine() && final(out)@ == old(out)@
                && final(self).spec_buffered() == old(self).spec_buffered(),
            spends_fresh(proposal@, old(self).spec_spent()) ==> {
                &&& old(self).spec_engine() is None ==> {
                    &&& final(self).spec_block_nullifiers().contains_key(proposal.block_hash)
                    &&& final(self).spec_block_nullifiers()[proposal.block_hash] == (old(self).spec_zone(), nullifiers_of(
                        proposal@.transactions,
                    ))
                    &&& final(self).spec_buffered() == old(self).spec_buffered()
                }
                &&& (old(self).spec_engine() is Some && spec_proposal_ok(old(self).spec_engine()->0, proposal@))
                    ==> votes_for(final(out)@, old(out)@, proposal.block_hash, old(self).spec_consensus_topic())
                &&& (old(self).spec_engine() is Some && !spec_proposal_ok(old(self).spec_engine()->0, proposal@)) ==> {
                    let e = old(self).spec_engine()->0;
                    &&& final(self).spec_engine() == old(self).spec_engine()
                    &&& final(out)@ == old(out)@
                    &&& final(self).spec_block_nullifiers().contains_key(proposal.block_hash)
                    &&& final(self).spec_block_nullifiers()[proposal.block_hash] == (old(self).spec_zone(), nullifiers_of(
                        proposal@.transactions,
                    ))
                    &&& final(self).spec_buffered() == if proposal.header.parent_hash != e.parent_hash
                        && proposal.header.epoch == e.epoch && proposal.header.height >= e.height {
                        Some(proposal@)
                    } else {
                        old(self).spec_buffered()
                    }
                }
            },
    {
        proof {
            lemma_spends_fresh(&proposal, self.spec_spent());
        }
        if !self.verify_proposal_transactions(&proposal) {
            return;
        }
        cache_block_txs(&mut self.block_tx_cache, &mut self.block_nullifiers, self.zone_id, &proposal);
        let mut eng = match self.engine.take() {
            Some(e) => e,
            None => return,
        };
        match eng.vote_on_proposal(&proposal, sign) {
            Some(action) => {
                eng.reset_timeout();
                let _ = eng.take_fork_recovery_used();
                self.engine = Some(eng);
                let ghost at_call = self.view_with(shared.zone_heads@, out@);
                let ghost v = match &action {
                    ConsensusAction::BroadcastVote(vote) => vote@,
                    _ => arbitrary(),
                };
                self.publish_and_self_certify(shared, action, out);
                proof {
                    let a = old(self).view_with(old(shared).zone_heads@, old(out)@);
                    let b = self.view_with(shared.zone_heads@, out@);
                    let cache = at_call.cache;
                    let e = a.engine->0;
                    let voted = ZoneState { ticks_in_round: 0, fork_recovery_used: false, ..spec_after_vote(e, proposal@) };
                    assert((TaskView { engine: Some(voted), out: b.out.subrange(0, a.out.len() + 1int), cache, ..a })
                        == (TaskView { out: b.out.subrange(0, a.out.len() + 1int), ..at_call }));
                    assert(v.signature == v.signature && cache.dom() == cache.dom());
                }
            },
            None => {
                if !crate::bytes::bytes32_eq(&proposal.header.parent_hash, eng.parent_hash())
                    && proposal.header.epoch == eng.epoch() && proposal.header.height >= eng.height() {
                    self.last_buffered_proposal = Some(proposal);
                }
                self.engine = Some(eng);
            },
        }
    }

    /// Handle a batch from the zone's consensus topics: proposals and
    /// votes in order (rejections are ignored), then the cleanups that can
    /// now be done.
    pub fn handle_consensus_batch<S: Fn(&[u8]) -> Vec<u8>>(
        &mut self,
        shared: &mut ZoneShared,
        batch: Vec<ZephyrZoneMessage>,
        sign: &S,
        out: &mut Vec<Publication>,
    )
        requires
            old(self).wf(),
            shared_wf(old(shared)),
            forall|d: &[u8]| #[trigger] sign.requires((d,)),
        ensures
            final(self).wf(),
            shared_wf(final(shared)),
            old(self).spec_spent().subset_of(final(self).spec_spent()),
            final(self).spec_zone() == old(self).spec_zone(),
            final(self).spec_last_epoch() == old(self).spec_last_epoch(),
            final(self).spec_engine() is Some <==> old(self).spec_engine() is Some,
            old(self).spec_engine() is None ==> final(out)@ == old(out)@ && final(shared).zone_heads@
                == old(shared).zone_heads@,
            exists|vs: Seq<TaskView>| #![trigger vs.len()] {
                &&& vs.len() == batch@.len() + 1
                &&& vs[0] == old(self).view_with(old(shared).zone_heads@, old(out)@)
                &&& vs.last() == (TaskView { cache: vs.last().cache, ..final(self).view_with(final(shared).zone_heads@, final(out)@) })
                &&& forall|k: int| 0 <= k < batch@.len() ==> msg_step(vs[k], vs[k + 1], #[trigger] batch@[k])
            },
            final(self).spec_deferred().dom().disjoint(final(self).spec_block_nullifiers().dom()),
    {
        let ghost orig = batch@;
        let ghost v0 = old(self).view_with(old(shared).zone_heads@, old(out)@);
        let ghost mut vs: Seq<TaskView> = seq![v0];
        let mut batch = batch;
        let n: usize = batch.len();
        let mut k: usize = 0;
        while batch.len() > 0
            invariant
                orig.len() == n,
                self.wf(),
                shared_wf(shared),
                forall|d: &[u8]| #[trigger] sign.requires((d,)),
                old(self).spec_spent().subset_of(self.spec_spent()),
                self.spec_zone() == old(self).spec_zone(),
                self.spec_last_epoch() == old(self).spec_last_epoch(),
                self.spec_engine() is Some <==> old(self).spec_engine() is Some,
                old(self).spec_engine() is None ==> out@ == old(out)@ && shared.zone_heads@ == old(shared).zone_heads@,
                k <= orig.len(),
                batch@ == orig.subrange(k as int, orig.len() as int),
                vs.len() == k + 1,
                vs[0] == v0,
                vs[k as int] == self.view_with(shared.zone_heads@, out@),
                forall|j: int| 0 <= j < k ==> msg_step(vs[j], vs[j + 1], #[trigger] orig[j]),
            decreases batch@.len(),
        {
            let ghost before = self.view_with(shared.zone_heads@, out@);
            let msg = batch.remove(0);
            proof {
                assert(msg == orig[k as int]);
                assert(batch@ =~= orig.subrange(k + 1, orig.len() as int));
            }
            match msg {
                ZephyrZoneMessage::Proposal(p) => self.handle_proposal(shared, p, sign, out),
                ZephyrZoneMessage::Vote(v) => self.handle_vote(shared, v, out),
                _ => {},
            }
            proof {
                let after = self.view_with(shared.zone_heads@, out@);
                assert(msg_step(before, after, orig[k as int]));
                vs = vs.push(after);
            }
            k += 1;
        }
        let ghost v_end = self.view_with(shared.zone_heads@, out@);
        self.resolve_deferred_cleanups(shared);
        proof {
            assert((TaskView { cache: v_end.cache, ..self.view_with(shared.zone_heads@, out@) }) == v_end);
            assert(k == orig.len());
            assert(vs.last() == v_end);
            assert forall|h: [u8; 32]| self.spec_deferred().dom().contains(h) implies !self.spec_block_nullifiers().dom().contains(h) by {}
        }
    }

    /// Handle a batch of certificates from the global topic, in order.
    pub fn handle_global_batch<S: Fn(&[u8]) -> Vec<u8>>(
        &mut self,
        shared: &mut ZoneShared,
        batch: Vec<CertificateNotice>,
        sign: &S,
        out: &mut Vec<Publication>,
    )
        requires
            old(self).wf(),
            shared_wf(old(shared)),
            forall|d: &[u8]| #[trigger] sign.requires((d,)),
        ensures
            final(self).wf(),
            shared_wf(final(shared)),
            old(self).spec_spent().subset_of(final(self).spec_spent()),
            final(self).spec_zone() == old(self).spec_zone(),
            final(self).spec_last_epoch() == old(self).spec_last_epoch(),
            final(self).spec_engine() is Some <==> old(self).spec_engine() is Some,
            old(self).spec_engine() is None ==> final(out)@ == old(out)@,
            exists|vs: Seq<TaskView>| #![trigger vs.len()] {
                &&& vs.len() == batch@.len() + 1
                &&& vs[0] == old(self).view_with(old(shared).zone_heads@, old(out)@)
                &&& vs.last() == final(self).view_with(final(shared).zone_heads@, final(out)@)
                &&& forall|k: int| 0 <= k < batch@.len() ==> cert_step(vs[k], vs[k + 1], (#[trigger] batch@[k]).cert@, batch@[k].nullifiers@)
            },
    {
        let ghost orig = batch@;
        let ghost v0 = old(self).view_with(old(shared).zone_heads@, old(out)@);
        let ghost mut vs: Seq<TaskView> = seq![v0];
        let mut batch = batch;
        let n: usize = batch.len();
        let mut k: usize = 0;
        while batch.len() > 0
            invariant
                orig.len() == n,
                self.wf(),
                shared_wf(shared),
                forall|d: &[u8]| #[trigger] sign.requires((d,)),
                old(self).spec_spent().subset_of(self.spec_spent()),
                self.spec_zone() == old(self).spec_zone(),
                self.spec_last_epoch() == old(self).spec_last_epoch(),
                self.spec_engine() is Some <==> old(self).spec_engine() is Some,
                old(self).spec_engine() is None ==> out@ == old(out)@,
                k <= orig.len(),
                batch@ == orig.subrange(k as int, orig.len() as int),
                vs.len() == k + 1,
                vs[0] == v0,
                vs[k as int] == self.view_with(shared.zone_heads@, out@),
                forall|j: int| 0 <= j < k ==> cert_step(vs[j], vs[j + 1], (#[trigger] orig[j]).cert@, orig[j].nullifiers@),
            decreases batch@.len(),
        {
            let ghost before = self.view_with(shared.zone_heads@, out@);
            let notice = batch.remove(0);
            proof {
                assert(notice == orig[k as int]);
                assert(batch@ =~= orig.subrange(k + 1, orig.len() as int));
            }
            self.handle_certificate(shared, notice, sign, out);
            proof {
                let after = self.view_with(shared.zone_heads@, out@);
                assert(cert_step(before, after, orig[k as int].cert@, orig[k as int].nullifiers@));
                vs = vs.push(after);
            }
            k += 1;
        }
    }

    /// Handle a certificate from the global topic, with the nullifiers of
    /// its block. Without an engine the block is finalized as it comes.
    /// With one, a certificate the engine applies is finalized, followed
    /// by every buffered certificate that now chains on; a stale one is
    /// ignored; any other is buffered (when the buffer takes it).
    #[verifier::spinoff_prover]
    #[verifier::rlimit(40)]
    pub fn handle_certificate<S: Fn(&[u8]) -> Vec<u8>>(
        &mut self,
        shared: &mut ZoneShared,
        notice: CertificateNotice,
        sign: &S,
        out: &mut Vec<Publication>,
    )
        requires
            old(self).wf(),
            shared_wf(old(shared)),
            forall|d: &[u8]| #[trigger] sign.requires((d,)),
        ensures
            final(self).wf(),
            shared_wf(final(shared)),
            old(self).spec_spent().subset_of(final(self).spec_spent()),
            final(self).spec_zone() == old(self).spec_zone(),
            final(self).spec_last_epoch() == old(self).spec_last_epoch(),
            final(self).spec_engine() is Some <==> old(self).spec_engine() is Some,
            cert_step(old(self).view_with(old(shared).zone_heads@, old(out)@), final(self).view_with(final(shared).zone_heads@, final(out)@), notice.cert@, notice.nullifiers@),
            old(self).spec_engine() is None ==> final(shared).zone_heads@ == old(shared).zone_heads@.insert(
                notice.cert.zone_id,
                notice.cert.block_hash,
            ) && final(out)@ == old(out)@,
            old(self).spec_engine() matches Some(e) ==> (notice.cert.height < u64::MAX && e.round < u64::MAX
                && e.height < u64::MAX) ==> {
                let (e1, applied) = spec_apply_certificate(e, notice.cert@);
                &&& applied ==> final(shared).zone_heads@.dom().contains(notice.cert.zone_id)
                &&& applied ==> heads_kept(old(shared).zone_heads@, final(shared).zone_heads@)
                &&& !applied ==> {
                    &&& final(self).spec_engine() == Some(e1)
                    &&& final(out)@ == old(out)@
                    &&& final(shared).zone_heads@ == old(shared).zone_heads@
                    &&& final(self).spec_spent() == old(self).spec_spent()
                    &&& final(self).spec_pending() == if notice.cert.block_hash != e1.parent_hash
                        && !has_block(old(self).spec_pending(), notice.cert.block_hash)
                        && old(self).spec_pending().len() < old(self).spec_pending_max() {
                        old(self).spec_pending().push(notice.cert@)
                    } else {
                        old(self).spec_pending()
                    }
                }
            },
    {
        let CertificateNotice { cert, tx_nullifiers, nullifiers } = notice;
        let ghost ns = nullifiers@;
        if tx_nullifiers.len() > 0 && !self.block_tx_cache.contains_key(&cert.block_hash) {
            self.block_tx_cache.insert(cert.block_hash, (cert.zone_id, tx_nullifiers));
        }
        if nullifiers.len() > 0 && !self.block_nullifiers.contains_key(&cert.block_hash) {
            self.block_nullifiers.insert(cert.block_hash, (cert.zone_id, nullifiers));
        }
        let ghost spent0 = self.spec_spent();
        let ghost cache0 = self.spec_block_nullifiers();
        proof {
            assert(cache0 =~= cache_with(old(self).spec_block_nullifiers(), cert@, ns));
            assert(spent0 == old(self).spec_spent());
        }
        let mut eng = match self.engine.take() {
            Some(e) => e,
            None => {
                self.finalize(shared, &cert);
                return;
            },
        };
        let room = cert.height < u64::MAX && eng.round() < u64::MAX && eng.height() < u64::MAX;
        if room && eng.apply_certificate(&cert) {
            let _ = eng.take_fork_recovery_used();
            let ghost e1c = eng@;
            let ghost pend0 = self.spec_pending();
            self.finalize(shared, &cert);
            let ghost h1 = shared.zone_heads@;
            let applied = self.drain_pending(&mut eng);
            let ghost ds = certs_model(applied@);
            let ghost pend = self.spec_pending();
            proof {
                assert(ds.take(0) =~= Seq::<CertificateModel>::empty());
                assert(seq![cert@] + ds.take(0) =~= seq![cert@]);
            }
            let mut i: usize = 0;
            while i < applied.len()
                invariant
                    self.wf(),
                    shared_wf(shared),
                    i <= applied@.len(),
                    self.engine is None,
                    old(self).spec_spent().subset_of(self.spec_spent()),
                    self.spec_zone() == old(self).spec_zone(),
                    self.spec_last_epoch() == old(self).spec_last_epoch(),
                    shared.zone_heads@.dom().contains(cert.zone_id),
                    heads_kept(old(shared).zone_heads@, shared.zone_heads@),
                    ds == certs_model(applied@),
                    shared.zone_heads@ == heads_with(h1, ds.take(i as int)),
                    (self.spec_spent(), self.spec_block_nullifiers()) == finalized(spent0, cache0, seq![cert@] + ds.take(i as int)),
                    self.spec_pending() == pend,
                    self.spec_pending_max() == old(self).spec_pending_max(),
                    self.spec_buffered() == old(self).spec_buffered(),
                    self.spec_consensus_topic() == old(self).spec_consensus_topic(),
                    self.spec_global_topic() == old(self).spec_global_topic(),
                decreases applied@.len() - i,
            {
                let ghost sc = (self.spec_spent(), self.spec_block_nullifiers());
                self.finalize(shared, &applied[i]);
                proof {
                    assert(ds.take(i + 1).drop_last() =~= ds.take(i as int));
                    assert(ds.take(i + 1).last() == applied@[i as int]@);
                    assert((seq![cert@] + ds.take(i + 1)).drop_last() =~= seq![cert@] + ds.take(i as int));
                    assert((seq![cert@] + ds.take(i + 1)).last() == applied@[i as int]@);
                    assert(seq![applied@[i as int]@].drop_last() =~= Seq::<CertificateModel>::empty());
                    assert(finalized(sc.0, sc.1, Seq::<CertificateModel>::empty()) == sc);
                }
                i += 1;
            }
            proof {
                assert(ds.take(applied@.len() as int) =~= ds);
            }
            let ghost spent_mid = self.spec_spent();
            self.pending_certs.purge_overflow();
            self.engine = Some(eng);
            let ghost mid = self.view_with(shared.zone_heads@, out@);
            self.retry_buffered_proposal(shared, sign, out);
            proof {
                assert(mid.heads == heads_with(old(shared).zone_heads@.insert(cert.zone_id, cert.block_hash), ds));
                assert(mid.pending == purged(pend, old(self).spec_pending_max()));
                assert(drained(e1c, pend0, ds, eng@, pend));
                assert(retry_step(mid, self.view_with(shared.zone_heads@, out@)));
                assert(mid.spent == finalized(spent0, cache0, seq![cert@] + ds).0);
            }
        } else {
            if !crate::bytes::bytes32_eq(&cert.block_hash, eng.parent_hash()) {
                let _ = self.pending_certs.push(cert);
            }
            self.engine = Some(eng);
        }
    }

    /// Apply the buffered certificates that chain on the engine's head
    /// (nothing when a counter is too close to its limit).
    fn drain_pending(&mut self, eng: &mut ZoneConsensus) -> (r: Vec<FinalityCertificate>)
        requires
            old(self).wf(),
            old(self).engine is None,
            old(eng).wf(),
            old(eng)@.zone_id == old(self).zone_id,
        ensures
            final(self).wf(),
            final(self).spec_config() == old(self).spec_config(),
            final(self).engine is None,
            final(eng).wf(),
            final(eng)@.zone_id == old(eng)@.zone_id,
            final(self).spec_spent() == old(self).spec_spent(),
            final(self).spec_zone() == old(self).spec_zone(),
            final(self).spec_last_epoch() == old(self).spec_last_epoch(),
            final(self).spec_buffered() == old(self).spec_buffered(),
            final(self).spec_pending_max() == old(self).spec_pending_max(),
            final(self).spec_consensus_topic() == old(self).spec_consensus_topic(),
            final(self).spec_global_topic() == old(self).spec_global_topic(),
            final(self).spec_block_nullifiers() == old(self).spec_block_nullifiers(),
            drain_guard(old(eng)@, old(self).spec_pending()) ==> {
                &&& applies_in_order(old(eng)@, certs_model(r@), final(eng)@)
                &&& drawn_from(certs_model(r@), old(self).spec_pending())
                &&& drawn_from(final(self).spec_pending(), old(self).spec_pending())
                &&& settled(final(eng)@, final(self).spec_pending())
            },
            !drain_guard(old(eng)@, old(self).spec_pending()) ==> {
                &&& r@.len() == 0
                &&& final(eng)@ == old(eng)@
                &&& final(self).spec_pending() == old(self).spec_pending()
            },
            drained(old(eng)@, old(self).spec_pending(), certs_model(r@), final(eng)@, final(self).spec_pending()),
    {
        let certs = self.pending_certs.iter();
        let n = certs.len() as u64;
        if !(eng.round() < u64::MAX - n && eng.height() < u64::MAX - n) {
            return Vec::new();
        }
        let mut heights_ok = true;
        let mut i: usize = 0;
        while i < certs.len()
            invariant
                i <= certs@.len(),
                n == certs@.len(),
                crate::types::certs_model(certs@) == self.pending_certs@.certs,
                heights_ok <==> forall|j: int| 0 <= j < i ==> #[trigger] certs@[j].height + n < u64::MAX,
            decreases certs@.len() - i,
        {
            if certs[i].height >= u64::MAX - n {
                heights_ok = false;
            }
            i += 1;
        }
        if !heights_ok {
            proof {
                assert(!(forall|j: int| 0 <= j < i ==> #[trigger] certs@[j].height + n < u64::MAX));
                let j = choose|j: int| 0 <= j < i && !(#[trigger] certs@[j].height + n < u64::MAX);
                assert(self.pending_certs@.certs[j] == certs@[j]@);
                assert(self.spec_pending()[j].height + self.spec_pending().len() >= u64::MAX);
                assert(!drain_guard(eng@, self.spec_pending()));
            }
            return Vec::new();
        }
        proof {
            assert forall|j: int| 0 <= j < self.pending_certs@.certs.len() implies #[trigger] self.pending_certs@.certs[j].height + self.pending_certs@.certs.len() < u64::MAX by {
                assert(self.pending_certs@.certs[j] == certs@[j]@);
            }
        }
        self.pending_certs.drain_applicable(eng)
    }

    /// A round timed out: rotate the leader, put the abandoned spends back
    /// into the mempool, and arm fork recovery when the zone looks stalled
    /// (two timeouts in a row, or eight buffered certificates).
    pub fn handle_timeout(&mut self, shared: &mut ZoneShared)
        requires
            old(self).wf(),
            shared_wf(old(shared)),
        ensures
            final(self).wf(),
            final(self).spec_config() == old(self).spec_config(),
            shared_wf(final(shared)),
            final(self).spec_spent() == old(self).spec_spent(),
            final(self).spec_zone() == old(self).spec_zone(),
            final(self).spec_last_epoch() == old(self).spec_last_epoch(),
            final(self).spec_pending_len() == old(self).spec_pending_len(),
            final(self).spec_engine() is Some <==> old(self).spec_engine() is Some,
            final(shared).zone_heads@ == old(shared).zone_heads@,
            old(self).spec_engine() matches Some(e) ==> final(self).spec_engine() == Some(
                timed_out_engine(e, old(self).spec_pending_len()),
            ),
            final(self).spec_pending() == old(self).spec_pending(),
            final(self).spec_pending_max() == old(self).spec_pending_max(),
            final(self).spec_buffered() == old(self).spec_buffered(),
            final(self).spec_block_nullifiers() == old(self).spec_block_nullifiers(),
            final(self).spec_consensus_topic() == old(self).spec_consensus_topic(),
            final(self).spec_global_topic() == old(self).spec_global_topic(),
            old(self).spec_engine() matches Some(e) ==> e.round < u64::MAX ==> e.consecutive_timeouts < u32::MAX ==> {
                let e2 = spec_timeout_round(e);
                let stalled = e2.consecutive_timeouts >= STALL_TIMEOUTS || old(self).spec_pending_len() >= STALL_PENDING_CERTS;
                final(self).spec_engine() == Some(if stalled { ZoneState { force_adopt_next_cert: true, ..e2 } } else { e2 })
            },
    {
        let mut eng = match self.engine.take() {
            Some(e) => e,
            None => return,
        };
        if !(eng.round() < u64::MAX && eng.consecutive_timeouts() < u32::MAX) {
            self.engine = Some(eng);
            return;
        }
        let abandoned = eng.timeout_round();
        if abandoned.len() > 0 {
            shared.mempool.reinsert_batch(self.zone_id, abandoned);
        }
        if eng.consecutive_timeouts() >= STALL_TIMEOUTS || self.pending_certs.len() >= STALL_PENDING_CERTS {
            let _ = eng.enable_fork_recovery();
        }
        let t = eng.consecutive_timeouts();
        shared.stats.zone_consecutive_timeouts.insert(self.zone_id, t);
        self.engine = Some(eng);
    }

    /// Every few ticks, apply the buffered certificates that now chain on,
    /// finalize them, and retry a kept proposal if any was applied.
    pub fn periodic_drain<S: Fn(&[u8]) -> Vec<u8>>(
        &mut self,
        shared: &mut ZoneShared,
        sign: &S,
        out: &mut Vec<Publication>,
    )
        requires
            old(self).wf(),
            shared_wf(old(shared)),
            forall|d: &[u8]| #[trigger] sign.requires((d,)),
        ensures
            final(self).wf(),
            final(self).spec_config() == old(self).spec_config(),
            shared_wf(final(shared)),
            old(self).spec_spent().subset_of(final(self).spec_spent()),
            final(self).spec_zone() == old(self).spec_zone(),
            final(self).spec_last_epoch() == old(self).spec_last_epoch(),
            final(self).spec_engine() is Some <==> old(self).spec_engine() is Some,
            drain_tick_step(
                old(self).view_with(old(shared).zone_heads@, old(out)@),
                final(self).view_with(final(shared).zone_heads@, final(out)@),
            ),
            old(self).spec_engine() matches Some(e) ==> (e.ticks_in_round % DRAIN_INTERVAL_TICKS != 0
                || old(self).spec_pending_len() == 0) ==> {
                &&& final(self).spec_engine() == old(self).spec_engine()
                &&& final(out)@ == old(out)@
                &&& final(shared).zone_heads@ == old(shared).zone_heads@
            },
            old(self).spec_engine() matches Some(e) ==> (e.ticks_in_round % DRAIN_INTERVAL_TICKS == 0
                && old(self).spec_pending_len() > 0) ==> {
                &&& drain_guard(e, old(self).spec_pending()) ==> exists|d: Seq<CertificateModel>, e2: ZoneState|
                    #[trigger] applies_in_order(e, d, e2) && {
                        &&& drawn_from(d, old(self).spec_pending())
                        &&& drawn_from(final(self).spec_pending(), old(self).spec_pending())
                        &&& settled(e2, final(self).spec_pending())
                        &&& d.len() == 0 ==> final(self).spec_engine() == Some(e2) && final(out)@ == old(out)@
                    }
                &&& !drain_guard(e, old(self).spec_pending()) ==> {
                    &&& final(self).spec_engine() == old(self).spec_engine()
                    &&& final(self).spec_pending() == old(self).spec_pending()
                    &&& final(out)@ == old(out)@
                }
                &&& exists|mid: TaskView, ds: Seq<CertificateModel>| #![trigger mid.heads, ds.len()] {
                    let a = old(self).view_with(old(shared).zone_heads@, old(out)@);
                    let b = final(self).view_with(final(shared).zone_heads@, final(out)@);
                    &&& mid.engine matches Some(e2) && drained(e, a.pending, ds, e2, mid.pending)
                    &&& mid.heads == heads_with(a.heads, ds)
                    &&& mid.spent == a.spent
                    &&& mid.out == a.out
                    &&& mid.zone == a.zone
                    &&& mid.last_epoch == a.last_epoch
                    &&& mid.buffered == a.buffered
                    &&& mid.consensus_topic == a.consensus_topic
                    &&& ds.len() > 0 ==> retry_step(mid, b)
                    &&& ds.len() == 0 ==> b == mid
                }
            },
    {
        let mut eng = match self.engine.take() {
            Some(e) => e,
            None => return,
        };
        if eng.ticks_in_round() % DRAIN_INTERVAL_TICKS != 0 || self.pending_certs.is_empty() {
            self.engine = Some(eng);
            return;
        }
        let ghost e0 = eng@;
        let applied = self.drain_pending(&mut eng);
        let ghost e2 = eng@;
        let ghost left = self.spec_pending();
        let ghost ds = certs_model(applied@);
        proof {
            if drain_guard(e0, old(self).spec_pending()) {
                assert(applies_in_order(e0, certs_model(applied@), e2));
            }
            assert(ds.take(0) =~= Seq::<CertificateModel>::empty());
        }
        let mut i: usize = 0;
        while i < applied.len()
            invariant
                self.wf(),
                shared_wf(shared),
                i <= applied@.len(),
                self.engine is None,
                old(self).spec_spent().subset_of(self.spec_spent()),
                self.spec_zone() == old(self).spec_zone(),
                self.spec_last_epoch() == old(self).spec_last_epoch(),
                self.spec_pending() == left,
                out@ == old(out)@,
                ds == certs_model(applied@),
                shared.zone_heads@ == heads_with(old(shared).zone_heads@, ds.take(i as int)),
                self.spec_spent() == old(self).spec_spent(),
                self.spec_buffered() == old(self).spec_buffered(),
                self.spec_consensus_topic() == old(self).spec_consensus_topic(),
                self.spec_global_topic() == old(self).spec_global_topic(),
                self.spec_pending_max() == old(self).spec_pending_max(),
                self.spec_config() == old(self).spec_config(),
            decreases applied@.len() - i,
        {
            apply_certificate_locally(&applied[i], shared, &self.block_tx_cache);
            cleanup_mempool_after_cert(
                &applied[i],
                &mut shared.mempool,
                &mut self.block_nullifiers,
                &mut self.deferred_cleanups,
            );
            proof {
                assert(ds.take(i + 1).drop_last() =~= ds.take(i as int));
                assert(ds.take(i + 1).last() == applied@[i as int]@);
            }
            i += 1;
        }
        proof {
            assert(ds.take(applied@.len() as int) =~= ds);
        }
        self.engine = Some(eng);
        let ghost mid = self.view_with(shared.zone_heads@, out@);
        if applied.len() > 0 {
            self.retry_buffered_proposal(shared, sign, out);
        }
        proof {
            assert(drained(e0, old(self).spec_pending(), ds, e2, mid.pending));
            assert(mid.heads == heads_with(old(shared).zone_heads@, ds));
        }
    }

    /// As the leader of the round (after warmup), propose a block of
    /// pending spends, or re-broadcast the pending proposal, and vote for
    /// a new proposal at once.
    #[verifier::spinoff_prover]
    #[verifier::rlimit(80)]
    pub fn try_propose<S: Fn(&[u8]) -> Vec<u8>>(
        &mut self,
        shared: &mut ZoneShared,
        sign: &S,
        out: &mut Vec<Publication>,
    )
        requires
            old(self).wf(),
            shared_wf(old(shared)),
            forall|d: &[u8]| #[trigger] sign.requires((d,)),
        ensures
            final(self).wf(),
            shared_wf(final(shared)),
            old(self).spec_spent().subset_of(final(self).spec_spent()),
            final(self).spec_zone() == old(self).spec_zone(),
            final(self).spec_last_epoch() == old(self).spec_last_epoch(),
            final(self).spec_engine() is Some <==> old(self).spec_engine() is Some,
            propose_task_step(
                old(self).view_with(old(shared).zone_heads@, old(out)@),
                final(self).view_with(final(shared).zone_heads@, final(out)@),
                if old(shared).mempool@.contains_key(old(self).spec_zone()) {
                    Some(old(shared).mempool@[old(self).spec_zone()])
                } else {
                    None
                },
                old(self).spec_config().max_block_size,
            ),
            old(self).spec_engine() matches Some(e) ==> (!spec_is_leader(e) || e.warmup_ticks > 0) ==> {
                &&& final(self).spec_engine() == old(self).spec_engine()
                &&& final(out)@ == old(out)@
                &&& final(shared).mempool@ == old(shared).mempool@
                &&& final(shared).zone_heads@ == old(shared).zone_heads@
            },
            old(self).spec_engine() is None ==> final(out)@ == old(out)@ && final(shared).mempool@ == old(shared).mempool@,
            (old(self).spec_engine() is Some && spec_is_leader(old(self).spec_engine()->0)
                && old(self).spec_engine()->0.warmup_ticks == 0) ==> {
                let e = old(self).spec_engine()->0;
                &&& (e.pending_proposal is Some && e.rebroadcast_count >= MAX_PROPOSAL_REBROADCASTS) ==> {
                    &&& final(self).spec_engine() == old(self).spec_engine()
                    &&& final(out)@ == old(out)@
                    &&& final(shared).mempool@ == old(shared).mempool@
                }
                &&& (e.pending_proposal is Some && e.rebroadcast_count < MAX_PROPOSAL_REBROADCASTS) ==> {
                    &&& final(self).spec_engine() == Some(
                        ZoneState { rebroadcast_count: (e.rebroadcast_count + 1) as u32, ..e },
                    )
                    &&& final(out)@.len() == old(out)@.len() + 1
                    &&& final(out)@.subrange(0, old(out)@.len() as int) == old(out)@
                    &&& final(out)@.last().topic@ == old(self).spec_consensus_topic()
                    &&& final(out)@.last().message matches crate::publishing::OutboundMessage::Proposal(b)
                        && b@ == e.pending_proposal->0
                    &&& final(shared).mempool@ == old(shared).mempool@
                }
                &&& e.pending_proposal is None ==> {
                    &&& final(out)@.len() > old(out)@.len()
                    &&& final(out)@.subrange(0, old(out)@.len() as int) == old(out)@
                    &&& final(out)@[old(out)@.len() as int].topic@ == old(self).spec_consensus_topic()
                    &&& final(out)@[old(out)@.len() as int].message matches crate::publishing::OutboundMessage::Proposal(b)
                        && b.header.zone_id == e.zone_id && b.header.epoch == e.epoch
                        && b.header.height == e.height && b.header.parent_hash == e.parent_hash
                        && b.header.proposer_id == e.my_validator_id
                    &&& old(shared).mempool@.contains_key(old(self).spec_zone()) ==> {
                        let m = old(shared).mempool@[old(self).spec_zone()];
                        final(out)@[old(out)@.len() as int].message matches crate::publishing::OutboundMessage::Proposal(b)
                            && b@.transactions == crate::consensus::engine::spec_block_spends(
                            e,
                            m.entries.subrange(0, crate::mempool::take_count(m, old(self).spec_config().max_block_size)),
                        )
                    }
                }
            },
    {
        let mut eng = match self.engine.take() {
            Some(e) => e,
            None => return,
        };
        if !eng.is_leader() || eng.in_warmup() {
            self.engine = Some(eng);
            return;
        }
        let is_rebroadcast = eng.has_pending_proposal();
        let spends = if is_rebroadcast {
            Vec::new()
        } else {
            shared.mempool.drain_proposal(self.zone_id, self.config.max_block_size)
        };
        let ghost e0 = eng@;
        let ghost sm = spends_model(spends@);
        let action = match eng.propose(spends, sign) {
            Some(a) => a,
            None => {
                self.engine = Some(eng);
                return;
            },
        };
        proof {
            let now = choose|now: u64| #[trigger] crate::consensus::engine::propose_outcome(
                e0,
                eng@,
                sm,
                now,
                crate::consensus::engine::opt_action(Some(action)),
            );
            if e0.pending_proposal is Some {
                assert(action@ == crate::consensus::engine::ActionModel::Proposal(e0.pending_proposal->0));
                assert(eng@ == (ZoneState { rebroadcast_count: (e0.rebroadcast_count + 1) as u32, ..e0 }));
            } else {
                assert(action is BroadcastProposal);
                assert(crate::consensus::block::is_built_block(
                    action->BroadcastProposal_0@,
                    crate::consensus::engine::spec_block_params(e0, now),
                    crate::consensus::engine::spec_block_spends(e0, sm),
                ));
                assert(action->BroadcastProposal_0.header.height == e0.height);
                assert(action->BroadcastProposal_0.header.parent_hash == e0.parent_hash);
            }
        }
        let block = match action {
            ConsensusAction::BroadcastProposal(b) => b,
            _ => {
                self.engine = Some(eng);
                return;
            },
        };
        self.publish_proposal(shared, eng, block, is_rebroadcast, sign, out);
    }

    /// Publish a proposal this node just made as leader (caching its
    /// nullifiers and voting for it when it is new), and put the engine
    /// back.
    fn publish_proposal<S: Fn(&[u8]) -> Vec<u8>>(
        &mut self,
        shared: &mut ZoneShared,
        eng: ZoneConsensus,
        block: Block,
        is_rebroadcast: bool,
        sign: &S,
        out: &mut Vec<Publication>,
    )
        requires
            old(self).wf(),
            old(self).engine is None,
            eng.wf(),
            eng@.zone_id == old(self).zone_id,
            shared_wf(old(shared)),
            forall|d: &[u8]| #[trigger] sign.requires((d,)),
        ensures
            final(self).wf(),
            shared_wf(final(shared)),
            old(self).spec_spent().subset_of(final(self).spec_spent()),
            final(self).spec_zone() == old(self).spec_zone(),
            final(self).spec_last_epoch() == old(self).spec_last_epoch(),
            final(self).spec_engine() is Some,
            final(self).spec_consensus_topic() == old(self).spec_consensus_topic(),
            final(out)@.len() > old(out)@.len(),
            final(out)@.subrange(0, old(out)@.len() as int) == old(out)@,
            final(out)@[old(out)@.len() as int].topic@ == old(self).spec_consensus_topic(),
            final(out)@[old(out)@.len() as int].message matches crate::publishing::OutboundMessage::Proposal(b)
                && b@ == block@,
            is_rebroadcast ==> {
                &&& final(out)@.len() == old(out)@.len() + 1
                &&& final(self).spec_engine() == Some(eng@)
                &&& final(shared).mempool@ == old(shared).mempool@
            },
    {
        let mut eng = eng;
        if !is_rebroadcast {
            cache_block_txs(&mut self.block_tx_cache, &mut self.block_nullifiers, self.zone_id, &block);
        }
        let proposal = ConsensusAction::BroadcastProposal(block.clone());
        let p = publish_action(
            &proposal,
            &self.consensus_topic,
            &self.global_topic,
            &self.block_tx_cache,
            &self.block_nullifiers,
        );
        out.push(p);
        if !is_rebroadcast {
            match eng.vote_on_proposal(&block, sign) {
                Some(vote_action) => {
                    self.engine = Some(eng);
                    let ghost mid = out@;
                    self.publish_and_self_certify(shared, vote_action, out);
                    proof {
                        assert(out@.subrange(0, mid.len() as int) == mid);
                        assert(out@[old(out)@.len() as int] == mid[old(out)@.len() as int]);
                        assert(out@.subrange(0, old(out)@.len() as int) =~= mid.subrange(0, old(out)@.len() as int));
                    }
                    return;
                },
                None => {},
            }
        }
        self.engine = Some(eng);
    }

    /// Move to a newer epoch: follow this node's assignment. A zone that is
    /// gained is subscribed to and served by a new engine (its mempool is
    /// created); a zone kept moves its engine to the epoch's committee
    /// (arming fork recovery first if it stalled); a zone that is lost is
    /// unsubscribed from and its engine, mempool and buffered certificates
    /// dropped. Epochs not newer than the last one are ignored.
    pub fn check_epoch_transition(
        &mut self,
        shared: &mut ZoneShared,
        snapshot: &EpochSnapshot,
        topics: &mut Vec<TopicCommand>,
    )
        requires
            old(self).wf(),
            shared_wf(old(shared)),
        ensures
            final(self).wf(),
            final(self).spec_config() == old(self).spec_config(),
            shared_wf(final(shared)),
            final(self).spec_spent() == old(self).spec_spent(),
            final(self).spec_zone() == old(self).spec_zone(),
            snapshot.current_epoch <= old(self).spec_last_epoch() ==> final(self).spec_engine() == old(self).spec_engine()
                && final(topics)@ == old(topics)@ && final(self).spec_last_epoch() == old(self).spec_last_epoch(),
            snapshot.current_epoch > old(self).spec_last_epoch() ==> epoch_step(
                old(self).view_with(old(shared).zone_heads@, Seq::empty()),
                final(self).view_with(final(shared).zone_heads@, Seq::empty()),
                snapshot.current_epoch,
                snapshot.assigned_zones@,
                old(self).spec_committee_for(snapshot.randomness_seed@),
                old(self).spec_my_id(),
                old(self).spec_config(),
            ),
            snapshot.current_epoch > old(self).spec_last_epoch() ==> {
                let assigned = snapshot.assigned_zones@.contains(old(self).spec_zone());
                &&& final(self).spec_last_epoch() == snapshot.current_epoch
                &&& assigned ==> (final(self).spec_engine() matches Some(e) && e.epoch == snapshot.current_epoch)
                &&& !assigned ==> final(self).spec_engine() is None
                &&& (assigned && old(self).spec_engine() is None) ==> (final(topics)@.len() == old(topics)@.len() + 2
                    && (final(topics)@[old(topics)@.len() as int] matches TopicCommand::Subscribe(t) && t@ == old(self).spec_zone_topic()))
                &&& (!assigned && old(self).spec_engine() is Some) ==> (final(topics)@.len() == old(topics)@.len() + 2
                    && (final(topics)@[old(topics)@.len() as int] matches TopicCommand::Unsubscribe(t) && t@ == old(self).spec_zone_topic()))
                &&& (assigned == (old(self).spec_engine() is Some)) ==> final(topics)@ == old(topics)@
                &&& assigned ==> (final(self).spec_engine() matches Some(e)
                    && e.committee == old(self).spec_committee_for(snapshot.randomness_seed@))
                &&& old(self).spec_engine() matches Some(e0) ==> assigned ==> final(self).spec_engine() == Some(
                    spec_advance_to_epoch(
                        if e0.consecutive_timeouts >= STALL_TIMEOUTS {
                            ZoneState { force_adopt_next_cert: true, ..e0 }
                        } else {
                            e0
                        },
                        snapshot.current_epoch,
                        old(self).spec_committee_for(snapshot.randomness_seed@),
                    ),
                )
                &&& assigned ==> final(self).spec_pending() == old(self).spec_pending().filter(
                    crate::consensus::pending_certs::epoch_at_least(snapshot.current_epoch),
                )
                &&& (old(self).spec_engine() is Some && !assigned) ==> final(self).spec_pending().len() == 0
                &&& (old(self).spec_engine() is None && !assigned) ==> final(self).spec_pending() == old(self).spec_pending()
            },
    {
        let current_epoch = snapshot.current_epoch;
        if current_epoch <= self.last_known_epoch {
            return;
        }
        self.last_known_epoch = current_epoch;
        let mut is_assigned = false;
        let mut i: usize = 0;
        while i < snapshot.assigned_zones.len()
            invariant
                i <= snapshot.assigned_zones@.len(),
                is_assigned == exists|j: int| 0 <= j < i && snapshot.assigned_zones@[j] == self.zone_id,
            decreases snapshot.assigned_zones@.len() - i,
        {
            if snapshot.assigned_zones[i] == self.zone_id {
                is_assigned = true;
            }
            i += 1;
        }
        proof {
            assert(is_assigned == snapshot.assigned_zones@.contains(self.zone_id));
        }
        let was_assigned = self.engine.is_some();
        shared.stats.assigned_zones = copy_zone_list(&snapshot.assigned_zones);
        if is_assigned {
            if !was_assigned {
                topics.push(TopicCommand::Subscribe(self.zone_topic.clone()));
                topics.push(TopicCommand::Subscribe(self.consensus_topic.clone()));
            }
            match self.engine.take() {
                Some(mut eng) => {
                    if eng.consecutive_timeouts() >= STALL_TIMEOUTS {
                        let _ = eng.enable_fork_recovery();
                    }
                    let committee = sample_committee(
                        &snapshot.randomness_seed,
                        self.zone_id,
                        self.validators.as_slice(),
                        self.config.committee_size,
                    );
                    eng.advance_to_epoch(current_epoch, committee);
                    self.engine = Some(eng);
                    self.pending_certs.retain_epoch(current_epoch);
                    proof {
                        self.pending_certs@.certs.lemma_filter_len(crate::consensus::pending_certs::epoch_at_least(current_epoch));
                    }
                },
                None => {
                    self.start_engine(shared, current_epoch, &snapshot.randomness_seed);
                    shared.mempool.add_zone(self.zone_id, ZONE_MEMPOOL_CAPACITY);
                    self.pending_certs.retain_epoch(current_epoch);
                    proof {
                        old(self).pending_certs@.certs.lemma_filter_len(crate::consensus::pending_certs::epoch_at_least(current_epoch));
                    }
                },
            }
        } else if was_assigned {
            topics.push(TopicCommand::Unsubscribe(self.zone_topic.clone()));
            topics.push(TopicCommand::Unsubscribe(self.consensus_topic.clone()));
            self.engine = None;
            shared.mempool.remove_zone(self.zone_id);
            self.pending_certs.clear();
        }
    }

    /// One round tick: move to a newer epoch if one began, then tick the
    /// engine, handle a round timeout, drain buffered certificates,
    /// propose as leader, and record the zone's mempool size.
    pub fn handle_tick<S: Fn(&[u8]) -> Vec<u8>>(
        &mut self,
        shared: &mut ZoneShared,
        snapshot: &EpochSnapshot,
        sign: &S,
        out: &mut Vec<Publication>,
        topics: &mut Vec<TopicCommand>,
    )
        requires
            old(self).wf(),
            shared_wf(old(shared)),
            forall|d: &[u8]| #[trigger] sign.requires((d,)),
        ensures
            final(self).wf(),
            shared_wf(final(shared)),
            old(self).spec_spent().subset_of(final(self).spec_spent()),
            final(self).spec_zone() == old(self).spec_zone(),
            final(self).spec_last_epoch() == if snapshot.current_epoch > old(self).spec_last_epoch() {
                snapshot.current_epoch
            } else {
                old(self).spec_last_epoch()
            },
            exists|v1: TaskView, v3: TaskView, m: Option<MempoolModel>| #![trigger v1.heads, v3.heads, m.is_some()] {
                let a = old(self).view_with(old(shared).zone_heads@, old(out)@);
                let b = final(self).view_with(final(shared).zone_heads@, final(out)@);
                let cfg = old(self).spec_config();
                &&& if snapshot.current_epoch > a.last_epoch {
                    epoch_step(
                        a,
                        v1,
                        snapshot.current_epoch,
                        snapshot.assigned_zones@,
                        old(self).spec_committee_for(snapshot.randomness_seed@),
                        old(self).spec_my_id(),
                        cfg,
                    )
                } else {
                    v1 == a
                }
                &&& v1.engine is None ==> b == v1
                &&& v1.engine matches Some(e1) ==> {
                    let v2 = TaskView {
                        engine: Some(ticked_engine(e1, cfg.round_timeout_ticks, v1.pending.len())),
                        ..v1
                    };
                    &&& drain_tick_step(v2, v3)
                    &&& propose_task_step(v3, b, m, cfg.max_block_size)
                }
            },
    {
        let ghost a = self.view_with(shared.zone_heads@, out@);
        if snapshot.current_epoch > self.last_known_epoch {
            self.check_epoch_transition(shared, snapshot, topics);
        }
        shared.stats.current_epoch = self.last_known_epoch;
        let ghost v1 = self.view_with(shared.zone_heads@, out@);
        proof {
            if snapshot.current_epoch > a.last_epoch {
                assert(epoch_step(
                    a,
                    v1,
                    snapshot.current_epoch,
                    snapshot.assigned_zones@,
                    old(self).spec_committee_for(snapshot.randomness_seed@),
                    old(self).spec_my_id(),
                    old(self).spec_config(),
                ));
            } else {
                assert(v1 == a);
            }
        }
        let ghost mut v3 = v1;
        let ghost mut m: Option<MempoolModel> = None;
        match self.engine.take() {
            Some(mut eng) => {
                if eng.ticks_in_round() < u32::MAX {
                    eng.tick();
                }
                let timeout = self.config.round_timeout_ticks;
                let timed_out = if timeout <= u32::MAX / 4 {
                    proof {
                        lemma_scaled_timeout_fits(timeout, eng@.consecutive_timeouts);
                    }
                    eng.is_round_timed_out(timeout)
                } else {
                    false
                };
                self.engine = Some(eng);
                if timed_out {
                    self.handle_timeout(shared);
                }
                let ghost v2 = self.view_with(shared.zone_heads@, out@);
                proof {
                    let e1 = v1.engine->0;
                    assert(v2 == (TaskView {
                        engine: Some(ticked_engine(e1, old(self).spec_config().round_timeout_ticks, v1.pending.len())),
                        ..v1
                    }));
                }
                self.periodic_drain(shared, sign, out);
                proof {
                    v3 = self.view_with(shared.zone_heads@, out@);
                    m = if shared.mempool@.contains_key(self.spec_zone()) {
                        Some(shared.mempool@[self.spec_zone()])
                    } else {
                        None
                    };
                }
                self.try_propose(shared, sign, out);
            },
            None => {},
        }
        let zone_len = shared.mempool.len(self.zone_id);
        shared.stats.mempool_sizes.insert(self.zone_id, zone_len);
        proof {
            assert(v1.heads == v1.heads && v3.heads == v3.heads && m.is_some() == m.is_some());
        }
    }
}

impl ZoneTaskState {
    /// The zone served.
    pub fn zone_id(&self) -> (r: ZoneId)
        ensures
            r == self.spec_zone(),
    {
        self.zone_id
    }

    /// Whether this node currently serves the zone (runs its engine).
    pub fn is_serving(&self) -> (r: bool)
        ensures
            r == self.spec_engine() is Some,
    {
        self.engine.is_some()
    }

    /// The last epoch moved to.
    pub fn last_known_epoch(&self) -> (r: u64)
        ensures
            r == self.spec_last_epoch(),
    {
        self.last_known_epoch
    }

    /// How many certificates wait for their parent.
    pub fn pending_cert_count(&self) -> (r: usize)
        ensures
            r == self.spec_pending_len(),
    {
        self.pending_certs.len()
    }

    /// Whether a proposal is kept for a retry.
    pub fn has_buffered_proposal(&self) -> (r: bool)
        ensures
            r == self.spec_buffered() is Some,
    {
        self.last_buffered_proposal.is_some()
    }

    /// Whether `n` is among the zone's finalized nullifiers.
    pub fn is_spent(&self, n: &Nullifier) -> (r: bool)
        ensures
            r == self.spec_spent().contains(*n),
    {
        self.nullifier_set.contains(n)
    }
}

/// A timeout of at most a quarter of the `u32` range still fits once
/// scaled for consecutive timeouts.
proof fn lemma_scaled_timeout_fits(timeout: u32, consecutive_timeouts: u32)
    requires
        timeout <= u32::MAX / 4,
    ensures
        crate::consensus::engine::effective_timeout(timeout, consecutive_timeouts) <= u32::MAX,
{
    let f: int = 1 + if consecutive_timeouts < 3 { consecutive_timeouts as int } else { 3 };
    assert(timeout * f <= u32::MAX) by (nonlinear_arith)
        requires
            timeout <= u32::MAX / 4,
            1 <= f <= 4,
    ;
}

/// Copies a list of zone ids.
pub fn copy_zone_list(v: &Vec<ZoneId>) -> (r: Vec<ZoneId>)
    ensures
        r@ == v@,
{
    let mut r: Vec<ZoneId> = Vec::new();
    let mut i: usize = 0;
    while i < v.len()
        invariant
            i <= v@.len(),
            r@ == v@.subrange(0, i as int),
        decreases v@.len() - i,
    {
        r.push(v[i]);
        i += 1;
        proof {
            assert(r@ =~= v@.subrange(0, i as int));
        }
    }
    proof {
        assert(v@.subrange(0, i as int) =~= v@);
    }
    r
}

} // verus!
