//! What a zone task publishes, and the bookkeeping done when a block is
//! finalized: block caches, the zone-head store, the runtime counters and
//! the mempool cleanup.
use std::collections::HashMap;
use vstd::prelude::*;
use crate::block_map::BlockMap;
use crate::consensus::engine::ConsensusAction;
use crate::hexcode::{hex_encode, hex_spec};
use crate::shared_mempool::SharedMempool;
use crate::mempool::{not_in, MempoolModel};
use crate::storage::{NullifierSet, ZoneHead};
use crate::types::{
    nullifiers_of, spends_model, Block, BlockVote, CertificateModel, FinalityCertificate, Nullifier,
    ZoneId,
};

verus! {

broadcast use vstd::std_specs::hash::group_hash_axioms;

/// Blocks kept in the per-task block caches before the oldest are dropped.
pub const MAX_BLOCK_TX_CACHE: usize = 200;

/// Finalized blocks kept for the dashboard feed.
pub const MAX_RECENT_BLOCKS: usize = 100;

/// A finality certificate as gossiped on the global topic, with the
/// nullifiers of the certified block (short hex forms and full values).
#[derive(Debug, Clone, PartialEq, Eq)]
pub struct CertificateNotice {
    pub cert: FinalityCertificate,
    pub tx_nullifiers: Vec<String>,
    pub nullifiers: Vec<Nullifier>,
}

/// A message a zone task publishes.
#[derive(Debug, Clone, PartialEq, Eq)]
pub enum OutboundMessage {
    Proposal(Block),
    Vote(BlockVote),
    Certificate(CertificateNotice),
}

/// A message and the topic it goes to.
#[derive(Debug, Clone, PartialEq, Eq)]
pub struct Publication {
    pub topic: String,
    pub message: OutboundMessage,
}

/// A change of gossip subscriptions.
#[derive(Debug, Clone, PartialEq, Eq)]
pub enum TopicCommand {
    Subscribe(String),
    Unsubscribe(String),
}

/// A finalized block for the dashboard feed.
#[derive(Debug, Clone)]
pub struct BlockSummary {
    pub zone_id: ZoneId,
    pub block_hash_hex: String,
    pub height: u64,
    pub tx_nullifiers: Vec<String>,
}

/// Live counters shared by the zone tasks and the status handlers.
pub struct RuntimeStats {
    pub current_epoch: u64,
    pub certificates_produced: u64,
    pub spends_processed: u64,
    pub mempool_sizes: HashMap<u32, usize>,
    pub assigned_zones: Vec<u32>,
    pub zone_heights: HashMap<u32, u64>,
    pub recent_blocks: Vec<BlockSummary>,
    pub blocks_produced: u64,
    pub zone_consecutive_timeouts: HashMap<u32, u32>,
}

/// State shared by all zone tasks of a node: the mempools, the zone-head
/// store and the runtime counters.
pub struct ZoneShared {
    pub mempool: SharedMempool,
    pub zone_heads: ZoneHead,
    pub stats: RuntimeStats,
}

/// The short hex forms of nullifiers: their first 8 bytes in hex.
pub open spec fn hex_prefixes(ns: Seq<Nullifier>) -> Seq<Seq<char>> {
    ns.map_values(|n: Nullifier| hex_spec(n.0@.subrange(0, 8)))
}

/// The views of a list of strings.
pub open spec fn strings_model(v: Seq<String>) -> Seq<Seq<char>> {
    v.map_values(|s: String| s@)
}

/// `a + 1`, wrapping at 2^64.
pub open spec fn inc(a: u64) -> u64 {
    if a == u64::MAX { 0 } else { (a + 1) as u64 }
}

/// `a + b`, wrapping at 2^64.
pub open spec fn wrapping_add_spec(a: u64, b: u64) -> u64 {
    vstd::wrapping::u64_specs::wrapping_add(a, b)
}

/// The short hex form of a nullifier.
pub fn nullifier_hex(n: &Nullifier) -> (r: String)
    ensures
        r@ == hex_spec(n.0@.subrange(0, 8)),
{
    let mut prefix: Vec<u8> = Vec::new();
    let mut i: usize = 0;
    while i < 8
        invariant
            i <= 8,
            prefix@ == n.0@.subrange(0, i as int),
        decreases 8 - i,
    {
        prefix.push(n.0[i]);
        i += 1;
        proof {
            assert(prefix@ =~= n.0@.subrange(0, i as int));
        }
    }
    hex_encode(prefix.as_slice())
}

/// Copies a list of nullifiers.
pub fn copy_nullifiers(v: &Vec<Nullifier>) -> (r: Vec<Nullifier>)
    ensures
        r@ == v@,
{
    let mut r: Vec<Nullifier> = Vec::new();
    let mut i: usize = 0;
    while i < v.len()
        invariant
            i <= v@.len(),
            r@ == v@.subrange(0, i as int),
        decreases v@.len() - i,
    {
        r.push(v[i]);
        i += 1;
        proof {
            assert(r@ =~= v@.subrange(0, i as int));
        }
    }
    proof {
        assert(v@.subrange(0, i as int) =~= v@);
    }
    r
}

/// Copies a list of strings.
pub fn copy_strings(v: &Vec<String>) -> (r: Vec<String>)
    ensures
        strings_model(r@) == strings_model(v@),
{
    let mut r: Vec<String> = Vec::new();
    let mut i: usize = 0;
    while i < v.len()
        invariant
            i <= v@.len(),
            r@.len() == i,
            forall|j: int| 0 <= j < i ==> #[trigger] r@[j]@ == v@[j]@,
        decreases v@.len() - i,
    {
        r.push(v[i].clone());
        i += 1;
    }
    proof {
        assert(strings_model(r@) =~= strings_model(v@));
    }
    r
}

/// The nullifiers spent by a block, in transaction order.
pub fn block_nullifier_list(block: &Block) -> (r: Vec<Nullifier>)
    ensures
        r@ == nullifiers_of(spends_model(block.transactions@)),
{
    let mut r: Vec<Nullifier> = Vec::new();
    let mut i: usize = 0;
    while i < block.transactions.len()
        invariant
            i <= block.transactions@.len(),
            r@ == nullifiers_of(spends_model(block.transactions@)).subrange(0, i as int),
        decreases block.transactions@.len() - i,
    {
        r.push(block.transactions[i].nullifier);
        i += 1;
        proof {
            assert(r@ =~= nullifiers_of(spends_model(block.transactions@)).subrange(0, i as int));
        }
    }
    proof {
        assert(nullifiers_of(spends_model(block.transactions@)).subrange(0, i as int)
            =~= nullifiers_of(spends_model(block.transactions@)));
    }
    r
}

/// The short hex forms of a list of nullifiers.
pub fn nullifier_hex_list(ns: &Vec<Nullifier>) -> (r: Vec<String>)
    ensures
        strings_model(r@) == hex_prefixes(ns@),
{
    let mut r: Vec<String> = Vec::new();
    let mut i: usize = 0;
    while i < ns.len()
        invariant
            i <= ns@.len(),
            r@.len() == i,
            forall|j: int| 0 <= j < i ==> #[trigger] r@[j]@ == hex_spec(ns@[j].0@.subrange(0, 8)),
        decreases ns@.len() - i,
    {
        r.push(nullifier_hex(&ns[i]));
        i += 1;
    }
    proof {
        assert(strings_model(r@) =~= hex_prefixes(ns@));
    }
    r
}

/// Remember the nullifiers of a block under its hash, dropping up to a
/// quarter of the cached blocks from both caches first when the summary
/// cache is full.
pub fn cache_block_txs(
    cache: &mut BlockMap<(ZoneId, Vec<String>)>,
    nullifier_cache: &mut BlockMap<(ZoneId, Vec<Nullifier>)>,
    zone_id: ZoneId,
    block: &Block,
)
    requires
        old(cache).wf(),
        old(nullifier_cache).wf(),
    ensures
        final(cache).wf(),
        final(nullifier_cache).wf(),
        final(cache).map().contains_key(block.block_hash),
        final(cache).map()[block.block_hash].0 == zone_id,
        strings_model(final(cache).map()[block.block_hash].1@) == hex_prefixes(
            nullifiers_of(spends_model(block.transactions@)),
        ),
        final(nullifier_cache).map().contains_key(block.block_hash),
        final(nullifier_cache).map()[block.block_hash].0 == zone_id,
        final(nullifier_cache).map()[block.block_hash].1@ == nullifiers_of(spends_model(block.transactions@)),
        forall|h: [u8; 32]| #[trigger] final(cache).map().contains_key(h) && h != block.block_hash
            ==> old(cache).map().contains_key(h) && final(cache).map()[h] == old(cache).map()[h],
        forall|h: [u8; 32]| #[trigger] final(nullifier_cache).map().contains_key(h) && h != block.block_hash
            ==> old(nullifier_cache).map().contains_key(h) && final(nullifier_cache).map()[h] == old(nullifier_cache).map()[h],
        old(cache).count() < MAX_BLOCK_TX_CACHE ==> forall|h: [u8; 32]| #[trigger] old(cache).map().contains_key(h)
            ==> final(cache).map().contains_key(h),
{
    if cache.len() >= MAX_BLOCK_TX_CACHE {
        let keys = cache.keys();
        let mut i: usize = 0;
        while i < MAX_BLOCK_TX_CACHE / 4 && i < keys.len()
            invariant
                cache.wf(),
                nullifier_cache.wf(),
                i <= keys@.len(),
                forall|h: [u8; 32]| #[trigger] cache.map().contains_key(h) ==> old(cache).map().contains_key(h)
                    && cache.map()[h] == old(cache).map()[h],
                forall|h: [u8; 32]| #[trigger] nullifier_cache.map().contains_key(h) ==> old(nullifier_cache).map().contains_key(h)
                    && nullifier_cache.map()[h] == old(nullifier_cache).map()[h],
            decreases keys@.len() - i,
        {
            let _ = cache.remove(&keys[i]);
            let _ = nullifier_cache.remove(&keys[i]);
            i += 1;
        }
    }
    let full = block_nullifier_list(block);
    let hexes = nullifier_hex_list(&full);
    cache.insert(block.block_hash, (zone_id, hexes));
    nullifier_cache.insert(block.block_hash, (zone_id, full));
}

/// After a certificate: drop the certified block's nullifiers from its
/// zone's mempool if they are known, else remember the block for a later
/// cleanup.
pub fn cleanup_mempool_after_cert(
    cert: &FinalityCertificate,
    mempool: &mut SharedMempool,
    block_nullifiers: &mut BlockMap<(ZoneId, Vec<Nullifier>)>,
    deferred_cleanups: &mut BlockMap<ZoneId>,
)
    requires
        old(mempool).wf(),
        old(block_nullifiers).wf(),
        old(deferred_cleanups).wf(),
    ensures
        final(mempool).wf(),
        final(block_nullifiers).wf(),
        final(deferred_cleanups).wf(),
        final(block_nullifiers).map() == old(block_nullifiers).map().remove(cert.block_hash),
        old(block_nullifiers).map().contains_key(cert.block_hash) ==> {
            let (z, ns) = old(block_nullifiers).map()[cert.block_hash];
            &&& final(deferred_cleanups).map() == old(deferred_cleanups).map()
            &&& final(mempool)@ == if old(mempool)@.contains_key(z) {
                old(mempool)@.insert(z, MempoolModel { entries: old(mempool)@[z].entries.filter(not_in(ns@)), ..old(mempool)@[z] })
            } else {
                old(mempool)@
            }
        },
        !old(block_nullifiers).map().contains_key(cert.block_hash) ==> {
            &&& final(deferred_cleanups).map() == old(deferred_cleanups).map().insert(cert.block_hash, cert.zone_id)
            &&& final(mempool)@ == old(mempool)@
        },
{
    match block_nullifiers.remove(&cert.block_hash) {
        Some((zone_id, nullifiers)) => {
            mempool.remove_nullifiers(zone_id, nullifiers.as_slice());
        },
        None => {
            deferred_cleanups.insert(cert.block_hash, cert.zone_id);
        },
    }
}

/// Insert the cached nullifiers of a finalized block into the nullifier
/// set (nothing when the block's nullifiers are not known).
pub fn persist_nullifiers(
    block_hash: &[u8; 32],
    block_nullifiers: &BlockMap<(ZoneId, Vec<Nullifier>)>,
    nullifier_set: &mut NullifierSet,
)
    requires
        block_nullifiers.wf(),
        old(nullifier_set).wf(),
    ensures
        final(nullifier_set).wf(),
        final(nullifier_set)@.zone_id == old(nullifier_set)@.zone_id,
        final(nullifier_set)@.nullifiers == if block_nullifiers.map().contains_key(*block_hash) {
            old(nullifier_set)@.nullifiers + block_nullifiers.map()[*block_hash].1@.to_set()
        } else {
            old(nullifier_set)@.nullifiers
        },
{
    match block_nullifiers.get(block_hash) {
        Some(entry) => {
            let ns = &entry.1;
            let mut i: usize = 0;
            while i < ns.len()
                invariant
                    nullifier_set.wf(),
                    i <= ns@.len(),
                    nullifier_set@.zone_id == old(nullifier_set)@.zone_id,
                    nullifier_set@.nullifiers == old(nullifier_set)@.nullifiers + ns@.subrange(0, i as int).to_set(),
                decreases ns@.len() - i,
            {
                let _ = nullifier_set.insert(ns[i]);
                proof {
                    assert(ns@.subrange(0, i + 1) =~= ns@.subrange(0, i as int).push(ns@[i as int]));
                    ns@.subrange(0, i as int).lemma_push_to_set_commute(ns@[i as int]);
                    assert(nullifier_set@.nullifiers =~= old(nullifier_set)@.nullifiers + ns@.subrange(0, i + 1).to_set());
                }
                i += 1;
            }
            proof {
                assert(ns@.subrange(0, i as int) =~= ns@);
            }
        },
        None => {
            proof {
                assert(nullifier_set@.nullifiers =~= old(nullifier_set)@.nullifiers);
            }
        },
    }
}

/// The height recorded for `zone_id` after one more finalized block.
pub open spec fn next_height(heights: Map<u32, u64>, zone_id: ZoneId) -> u64 {
    inc(if heights.contains_key(zone_id) { heights[zone_id] } else { 0 })
}

impl RuntimeStats {
    /// All counters at zero, no zone assigned.
    pub fn new() -> (r: Self)
        ensures
            r.current_epoch == 0,
            r.certificates_produced == 0,
            r.spends_processed == 0,
            r.blocks_produced == 0,
            r.recent_blocks@.len() == 0,
            r.zone_heights@ == Map::<u32, u64>::empty(),
    {
        RuntimeStats {
            current_epoch: 0,
            certificates_produced: 0,
            spends_processed: 0,
            mempool_sizes: HashMap::new(),
            assigned_zones: Vec::new(),
            zone_heights: HashMap::new(),
            recent_blocks: Vec::new(),
            blocks_produced: 0,
            zone_consecutive_timeouts: HashMap::new(),
        }
    }

    /// Count a finalized block of `zone_id`: one more certificate and
    /// block, its spends, one more height for the zone, a summary at the
    /// end of the feed (the oldest dropped beyond [`MAX_RECENT_BLOCKS`]),
    /// and the zone's stall counter cleared.
    pub fn record_finalized(&mut self, zone_id: ZoneId, block_hash: &[u8; 32], tx_nullifiers: Vec<String>)
        requires
            old(self).recent_blocks@.len() <= MAX_RECENT_BLOCKS,
        ensures
            final(self).recent_blocks@.len() <= MAX_RECENT_BLOCKS,
            final(self).certificates_produced == inc(old(self).certificates_produced),
            final(self).spends_processed == wrapping_add_spec(old(self).spends_processed, tx_nullifiers@.len() as u64),
            final(self).blocks_produced == inc(old(self).blocks_produced),
            final(self).zone_heights@ == old(self).zone_heights@.insert(zone_id, next_height(old(self).zone_heights@, zone_id)),
            final(self).zone_consecutive_timeouts@ == old(self).zone_consecutive_timeouts@.insert(zone_id, 0),
            final(self).current_epoch == old(self).current_epoch,
            final(self).recent_blocks@.last().zone_id == zone_id,
            final(self).recent_blocks@.last().height == next_height(old(self).zone_heights@, zone_id),
            final(self).recent_blocks@.last().block_hash_hex@ == hex_spec(block_hash@.subrange(0, 8)),
            strings_model(final(self).recent_blocks@.last().tx_nullifiers@) == strings_model(tx_nullifiers@),
    {
        let spend_count = tx_nullifiers.len() as u64;
        self.certificates_produced = self.certificates_produced.wrapping_add(1);
        self.spends_processed = self.spends_processed.wrapping_add(spend_count);
        let old_height: u64 = match self.zone_heights.get(&zone_id) {
            Some(h) => *h,
            None => 0,
        };
        let height = old_height.wrapping_add(1);
        self.zone_heights.insert(zone_id, height);
        let mut prefix: Vec<u8> = Vec::new();
        let mut i: usize = 0;
        while i < 8
            invariant
                i <= 8,
                prefix@ == block_hash@.subrange(0, i as int),
            decreases 8 - i,
        {
            prefix.push(block_hash[i]);
            i += 1;
            proof {
                assert(prefix@ =~= block_hash@.subrange(0, i as int));
            }
        }
        let summary = BlockSummary {
            zone_id,
            block_hash_hex: hex_encode(prefix.as_slice()),
            height,
            tx_nullifiers,
        };
        self.recent_blocks.push(summary);
        self.blocks_produced = self.blocks_produced.wrapping_add(1);
        if self.recent_blocks.len() > MAX_RECENT_BLOCKS {
            let _ = self.recent_blocks.remove(0);
        }
        self.zone_consecutive_timeouts.insert(zone_id, 0);
    }
}

/// Record a finalized certificate: the zone-head store moves to the
/// certified block, and the counters count it with the spends cached for
/// the block.
pub fn apply_certificate_locally(
    cert: &FinalityCertificate,
    shared: &mut ZoneShared,
    block_tx_cache: &BlockMap<(ZoneId, Vec<String>)>,
)
    requires
        block_tx_cache.wf(),
        old(shared).stats.recent_blocks@.len() <= MAX_RECENT_BLOCKS,
    ensures
        final(shared).zone_heads@ == old(shared).zone_heads@.insert(cert.zone_id, cert.block_hash),
        final(shared).mempool == old(shared).mempool,
        final(shared).stats.recent_blocks@.len() <= MAX_RECENT_BLOCKS,
        final(shared).stats.certificates_produced == inc(old(shared).stats.certificates_produced),
        final(shared).stats.spends_processed == wrapping_add_spec(
            old(shared).stats.spends_processed,
            if block_tx_cache.map().contains_key(cert.block_hash) {
                block_tx_cache.map()[cert.block_hash].1@.len() as u64
            } else {
                0
            },
        ),
        final(shared).stats.zone_heights@ == old(shared).stats.zone_heights@.insert(
            cert.zone_id,
            next_height(old(shared).stats.zone_heights@, cert.zone_id),
        ),
        final(shared).stats.zone_consecutive_timeouts@ == old(shared).stats.zone_consecutive_timeouts@.insert(cert.zone_id, 0),
{
    shared.zone_heads.set(cert.zone_id, cert.block_hash);
    let tx_nullifiers = match block_tx_cache.get(&cert.block_hash) {
        Some(entry) => {
            let c = copy_strings(&entry.1);
            proof {
                assert(strings_model(c@).len() == c@.len());
                assert(strings_model(entry.1@).len() == entry.1@.len());
            }
            c
        },
        None => Vec::new(),
    };
    shared.stats.record_finalized(cert.zone_id, &cert.block_hash, tx_nullifiers);
}

/// The topic and message that publish a consensus action: proposals and
/// votes go to the zone's consensus topic, certificates (with the cached
/// nullifiers of their block) to the global topic.
pub open spec fn publishes(
    p: Publication,
    action: ConsensusAction,
    consensus_topic: Seq<char>,
    global_topic: Seq<char>,
) -> bool {
    match action {
        ConsensusAction::BroadcastProposal(b) => {
            &&& p.topic@ == consensus_topic
            &&& p.message matches OutboundMessage::Proposal(b2)
            &&& b2@ == b@
        },
        ConsensusAction::BroadcastVote(v) => {
            &&& p.topic@ == consensus_topic
            &&& p.message matches OutboundMessage::Vote(v2)
            &&& v2@ == v@
        },
        ConsensusAction::BroadcastCertificate(c) => {
            &&& p.topic@ == global_topic
            &&& p.message matches OutboundMessage::Certificate(n)
            &&& n.cert@ == c@
        },
    }
}

/// Publish a consensus action (see [`publishes`]); a certificate carries
/// the nullifiers cached for its block, or none.
pub fn publish_action(
    action: &ConsensusAction,
    consensus_topic: &String,
    global_topic: &String,
    block_tx_cache: &BlockMap<(ZoneId, Vec<String>)>,
    block_nullifiers: &BlockMap<(ZoneId, Vec<Nullifier>)>,
) -> (r: Publication)
    requires
        block_tx_cache.wf(),
        block_nullifiers.wf(),
    ensures
        publishes(r, *action, consensus_topic@, global_topic@),
        r.message matches OutboundMessage::Certificate(n) ==> {
            let h = n.cert.block_hash;
            &&& strings_model(n.tx_nullifiers@) == if block_tx_cache.map().contains_key(h) {
                strings_model(block_tx_cache.map()[h].1@)
            } else {
                Seq::empty()
            }
            &&& n.nullifiers@ == if block_nullifiers.map().contains_key(h) {
                block_nullifiers.map()[h].1@
            } else {
                Seq::empty()
            }
        },
{
    match action {
        ConsensusAction::BroadcastProposal(p) => Publication {
            topic: consensus_topic.clone(),
            message: OutboundMessage::Proposal(p.clone()),
        },
        ConsensusAction::BroadcastVote(v) => Publication {
            topic: consensus_topic.clone(),
            message: OutboundMessage::Vote(v.clone()),
        },
        ConsensusAction::BroadcastCertificate(c) => {
            let tx_nullifiers = match block_tx_cache.get(&c.block_hash) {
                Some(entry) => copy_strings(&entry.1),
                None => Vec::new(),
            };
            let nullifiers = match block_nullifiers.get(&c.block_hash) {
                Some(entry) => copy_nullifiers(&entry.1),
                None => Vec::new(),
            };
            proof {
                assert(strings_model(Seq::<String>::empty()) =~= Seq::<Seq<char>>::empty());
            }
            Publication {
                topic: global_topic.clone(),
                message: OutboundMessage::Certificate(CertificateNotice { cert: c.clone(), tx_nullifiers, nullifiers }),
            }
        },
    }
}

} // verus!
