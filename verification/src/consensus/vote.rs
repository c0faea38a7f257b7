//! Collection of block votes into finality certificates.
use vstd::prelude::*;
use crate::bytes::bytes32_eq;
use crate::types::{
    copy_bytes, copy_signatures, signatures_model, BlockVote, CertSignature, CertSignatureModel,
    CertificateModel, EpochId, opt_cert_model, FinalityCertificate, VoteModel, ZoneId,
};

verus! {

/// Whether `count` votes meet the quorum `threshold`.
pub fn quorum_reached(count: usize, threshold: usize) -> (r: bool)
    ensures
        r == (count >= threshold),
{
    count >= threshold
}

/// The votes collected for one block hash, in arrival order.
pub struct BlockVotes {
    pub block_hash: [u8; 32],
    pub signatures: Vec<CertSignature>,
}

/// Model of a [`CertificateBuilder`]: the block hashes that have votes, in
/// order of their first vote, and for each the signatures in arrival order.
pub struct BuilderModel {
    pub zone_id: ZoneId,
    pub epoch: EpochId,
    pub quorum: usize,
    pub order: Seq<[u8; 32]>,
    pub votes: Map<[u8; 32], Seq<CertSignatureModel>>,
}

/// Collects votes per block hash and produces a [`FinalityCertificate`] as
/// soon as one block gathers `quorum_threshold` distinct voters.
pub struct CertificateBuilder {
    zone_id: ZoneId,
    epoch: EpochId,
    quorum_threshold: usize,
    entries: Vec<BlockVotes>,
}

/// Whether a list of signatures holds one signature per voter at most.
pub open spec fn distinct_voters(s: Seq<CertSignatureModel>) -> bool {
    forall|i: int, j: int| 0 <= i < j < s.len() ==> s[i].validator_id != s[j].validator_id
}

/// Whether `id` has signed in `s`.
pub open spec fn has_voter(s: Seq<CertSignatureModel>, id: [u8; 32]) -> bool {
    exists|i: int| 0 <= i < s.len() && s[i].validator_id == id
}

/// The signatures collected for `h` (empty when `h` has no votes).
pub open spec fn votes_for(b: BuilderModel, h: [u8; 32]) -> Seq<CertSignatureModel> {
    if b.votes.contains_key(h) {
        b.votes[h]
    } else {
        Seq::empty()
    }
}

/// The certificate for block `h` that `b` would issue at `height` on top
/// of `parent`.
pub open spec fn cert_for(b: BuilderModel, h: [u8; 32], parent: [u8; 32], height: u64) -> CertificateModel {
    CertificateModel {
        zone_id: b.zone_id,
        epoch: b.epoch,
        height,
        parent_hash: parent,
        block_hash: h,
        signatures: votes_for(b, h),
    }
}

/// Effect of one vote on a builder: a vote for another zone or epoch, or
/// from a voter that already signed that block, changes nothing; otherwise
/// the signature is appended to the block's list, and a certificate comes
/// out exactly when that list reaches the quorum.
pub open spec fn spec_add_vote(b: BuilderModel, v: VoteModel, parent: [u8; 32], height: u64) -> (
    BuilderModel,
    Option<CertificateModel>,
) {
    let h = v.block_hash;
    if v.zone_id != b.zone_id || v.epoch != b.epoch || has_voter(votes_for(b, h), v.voter_id) {
        (b, None)
    } else {
        let sigs = votes_for(b, h).push(
            CertSignatureModel { validator_id: v.voter_id, signature: v.signature },
        );
        let b2 = BuilderModel {
            order: if b.votes.contains_key(h) { b.order } else { b.order.push(h) },
            votes: b.votes.insert(h, sigs),
            ..b
        };
        if sigs.len() == b.quorum {
            (b2, Some(cert_for(b2, h, parent, height)))
        } else {
            (b2, None)
        }
    }
}

/// The builder with only the votes for `h` kept.
pub open spec fn spec_retain_block(b: BuilderModel, h: [u8; 32]) -> BuilderModel {
    if b.votes.contains_key(h) {
        BuilderModel { order: seq![h], votes: Map::empty().insert(h, b.votes[h]), ..b }
    } else {
        BuilderModel { order: Seq::empty(), votes: Map::empty(), ..b }
    }
}

/// The builder with every vote dropped.
pub open spec fn spec_clear_votes(b: BuilderModel) -> BuilderModel {
    BuilderModel { order: Seq::empty(), votes: Map::empty(), ..b }
}

/// A fresh builder.
pub open spec fn spec_new_builder(zone_id: ZoneId, epoch: EpochId, quorum: usize) -> BuilderModel {
    BuilderModel { zone_id, epoch, quorum, order: Seq::empty(), votes: Map::empty() }
}

/// Well-formedness of a builder model: `order` lists exactly the voted
/// hashes, once each, and no voter signs a block twice.
pub open spec fn builder_wf(b: BuilderModel) -> bool {
    &&& b.order.no_duplicates()
    &&& forall|h: [u8; 32]| #[trigger] b.votes.contains_key(h) <==> b.order.contains(h)
    &&& forall|h: [u8; 32]| #[trigger] b.votes.contains_key(h) ==> distinct_voters(b.votes[h]) && b.votes[h].len() > 0
}

impl CertificateBuilder {
    /// Index of the entry for `h`.
    spec fn index_of(self, h: [u8; 32]) -> int {
        choose|i: int| 0 <= i < self.entries@.len() && self.entries@[i].block_hash == h
    }

    /// Whether some entry is for `h`.
    spec fn has_entry(self, h: [u8; 32]) -> bool {
        exists|i: int| 0 <= i < self.entries@.len() && self.entries@[i].block_hash == h
    }

    /// Internal consistency: one entry per block hash, and each entry is a
    /// non-empty list of distinct voters.
    pub closed spec fn wf(self) -> bool {
        &&& forall|i: int, j: int|
            0 <= i < j < self.entries@.len() ==> self.entries@[i].block_hash
                != self.entries@[j].block_hash
        &&& forall|i: int|
            0 <= i < self.entries@.len() ==> distinct_voters(
                signatures_model(#[trigger] self.entries@[i].signatures@),
            ) && self.entries@[i].signatures@.len() > 0
    }

    /// The builder's model.
    pub closed spec fn model(self) -> BuilderModel {
        BuilderModel {
            zone_id: self.zone_id,
            epoch: self.epoch,
            quorum: self.quorum_threshold,
            order: self.entries@.map_values(|e: BlockVotes| e.block_hash),
            votes: Map::new(
                |h: [u8; 32]| self.has_entry(h),
                |h: [u8; 32]| signatures_model(self.entries@[self.index_of(h)].signatures@),
            ),
        }
    }

    proof fn lemma_index_of(self, i: int)
        requires
            self.wf(),
            0 <= i < self.entries@.len(),
        ensures
            self.has_entry(self.entries@[i].block_hash),
            self.index_of(self.entries@[i].block_hash) == i,
    {
        let h = self.entries@[i].block_hash;
        assert(self.has_entry(h));
        let j = self.index_of(h);
        if j != i {
            if j < i {
                assert(self.entries@[j].block_hash != self.entries@[i].block_hash);
            } else {
                assert(self.entries@[i].block_hash != self.entries@[j].block_hash);
            }
        }
    }

    pub proof fn lemma_model_wf(self)
        requires
            self.wf(),
        ensures
            builder_wf(self.model()),
    {
        let m = self.model();
        assert forall|h: [u8; 32]| #[trigger] m.votes.contains_key(h) <==> m.order.contains(h) by {
            if m.votes.contains_key(h) {
                let i = self.index_of(h);
                assert(m.order[i] == h);
            }
            if m.order.contains(h) {
                let i = choose|i: int| 0 <= i < m.order.len() && m.order[i] == h;
                assert(self.entries@[i].block_hash == h);
            }
        }
        assert forall|h: [u8; 32]| #[trigger] m.votes.contains_key(h) implies distinct_voters(m.votes[h]) && m.votes[h].len() > 0 by {
            let i = self.index_of(h);
            assert(distinct_voters(signatures_model(self.entries@[i].signatures@)));
        }
        assert forall|i: int, j: int| 0 <= i < m.order.len() && 0 <= j < m.order.len() && i != j implies m.order[i] != m.order[j] by {
            if i < j {
                assert(self.entries@[i].block_hash != self.entries@[j].block_hash);
            } else {
                assert(self.entries@[j].block_hash != self.entries@[i].block_hash);
            }
        }
    }

    /// A builder for `zone_id` in `epoch` with quorum `quorum_threshold`.
    pub fn new(zone_id: ZoneId, epoch: EpochId, quorum_threshold: usize) -> (r: Self)
        ensures
            r.wf(),
            r.model() == spec_new_builder(zone_id, epoch, quorum_threshold),
    {
        let r = CertificateBuilder { zone_id, epoch, quorum_threshold, entries: Vec::new() };
        assert(r.model().votes =~= Map::empty());
        assert(r.model().order =~= Seq::empty());
        r
    }

    /// Position of the entry for `h`, if any.
    fn find(&self, h: &[u8; 32]) -> (r: Option<usize>)
        requires
            self.wf(),
        ensures
            r matches Some(i) ==> i < self.entries@.len() && self.entries@[i as int].block_hash == *h,
            r is None ==> !self.has_entry(*h),
    {
        let mut i: usize = 0;
        while i < self.entries.len()
            invariant
                i <= self.entries@.len(),
                forall|j: int| 0 <= j < i ==> self.entries@[j].block_hash != *h,
            decreases self.entries.len() - i,
        {
            if bytes32_eq(&self.entries[i].block_hash, h) {
                assert(self.entries@[i as int].block_hash =~= *h);
                return Some(i);
            }
            i += 1;
        }
        None
    }

    /// Number of votes collected for `h`.
    pub fn vote_count(&self, h: &[u8; 32]) -> (r: usize)
        requires
            self.wf(),
        ensures
            r == votes_for(self.model(), *h).len(),
    {
        match self.find(h) {
            Some(i) => {
                proof { self.lemma_index_of(i as int); }
                self.entries[i].signatures.len()
            },
            None => 0,
        }
    }

    /// Number of distinct block hashes that hold at least one vote.
    pub fn pending_count(&self) -> (r: usize)
        requires
            self.wf(),
        ensures
            r == self.model().order.len(),
    {
        self.entries.len()
    }

    /// The largest number of votes held by any single block hash.
    pub fn max_vote_count(&self) -> (r: usize)
        requires
            self.wf(),
        ensures
            forall|h: [u8; 32]| #[trigger] self.model().votes.contains_key(h) ==> self.model().votes[h].len() <= r,
            r == 0 || exists|h: [u8; 32]| #[trigger] self.model().votes.contains_key(h) && self.model().votes[h].len() == r,
    {
        let mut best: usize = 0;
        let mut i: usize = 0;
        while i < self.entries.len()
            invariant
                self.wf(),
                i <= self.entries@.len(),
                forall|j: int| 0 <= j < i ==> self.entries@[j].signatures@.len() <= best,
                best == 0 || exists|j: int| 0 <= j < i && self.entries@[j].signatures@.len() == best,
            decreases self.entries.len() - i,
        {
            if self.entries[i].signatures.len() > best {
                best = self.entries[i].signatures.len();
            }
            i += 1;
        }
        proof {
            let m = self.model();
            assert forall|h: [u8; 32]| #[trigger] m.votes.contains_key(h) implies m.votes[h].len() <= best by {
                let j = self.index_of(h);
                assert(self.entries@[j].signatures@.len() <= best);
            }
            if best != 0 {
                let j = choose|j: int| 0 <= j < i && self.entries@[j].signatures@.len() == best;
                self.lemma_index_of(j);
                let h = self.entries@[j].block_hash;
                assert(m.votes.contains_key(h) && m.votes[h].len() == best);
            }
        }
        best
    }

    /// Drop every vote.
    pub fn clear_votes(&mut self)
        ensures
            final(self).wf(),
            final(self).model() == spec_clear_votes(old(self).model()),
    {
        self.entries = Vec::new();
        assert(self.model().votes =~= Map::empty());
        assert(self.model().order =~= Seq::empty());
    }

    /// Keep only the votes for `h`.
    pub fn retain_block(&mut self, h: [u8; 32])
        requires
            old(self).wf(),
        ensures
            final(self).wf(),
            final(self).model() == spec_retain_block(old(self).model(), h),
    {
        let ghost old_self = *self;
        match self.find(&h) {
            Some(i) => {
                proof { old_self.lemma_index_of(i as int); }
                let sigs = copy_signatures(&self.entries[i].signatures);
                let mut entries: Vec<BlockVotes> = Vec::new();
                entries.push(BlockVotes { block_hash: h, signatures: sigs });
                self.entries = entries;
                proof {
                    assert(signatures_model(self.entries@[0].signatures@) == signatures_model(old_self.entries@[i as int].signatures@));
                    assert(self.wf());
                    self.lemma_index_of(0);
                    assert(self.model().order =~= seq![h]);
                    assert(self.model().votes =~= Map::empty().insert(h, old_self.model().votes[h]));
                }
            },
            None => {
                self.entries = Vec::new();
                assert(self.model().votes =~= Map::empty());
                assert(self.model().order =~= Seq::empty());
            },
        }
    }

    /// Record `vote` and return a certificate if it brings its block to the
    /// quorum. The certificate is for the block at `height` on top of
    /// `parent_hash`.
    pub fn add_vote(&mut self, vote: BlockVote, parent_hash: [u8; 32], height: u64) -> (r: Option<FinalityCertificate>)
        requires
            old(self).wf(),
        ensures
            final(self).wf(),
            final(self).model() == spec_add_vote(old(self).model(), vote@, parent_hash, height).0,
            opt_cert_model(r) == spec_add_vote(old(self).model(), vote@, parent_hash, height).1,
    {
        let ghost old_self = *self;
        let ghost m = self.model();
        if vote.zone_id != self.zone_id || vote.epoch != self.epoch {
            return None;
        }
        let h = vote.block_hash;
        let sig = CertSignature { validator_id: vote.voter_id, signature: vote.signature };
        match self.find(&h) {
            Some(i) => {
                proof { old_self.lemma_index_of(i as int); }
                let mut k: usize = 0;
                while k < self.entries[i].signatures.len()
                    invariant
                        *self == old_self,
                        old_self.wf(),
                        m == old_self.model(),
                        old_self.has_entry(h),
                        old_self.index_of(h) == i,
                        sig.validator_id == vote.voter_id,
                        h == vote.block_hash,
                        i < self.entries@.len(),
                        k <= self.entries@[i as int].signatures@.len(),
                        forall|j: int| 0 <= j < k ==> self.entries@[i as int].signatures@[j].validator_id != sig.validator_id,
                    decreases self.entries@[i as int].signatures@.len() - k,
                {
                    if bytes32_eq(&self.entries[i].signatures[k].validator_id, &sig.validator_id) {
                        proof {
                            let s = signatures_model(self.entries@[i as int].signatures@);
                            assert(votes_for(m, h) == s);
                            assert(s[k as int].validator_id == sig.validator_id);
                            assert(sig.validator_id == vote.voter_id);
                            assert(0 <= k < s.len());
                            assert(s[k as int].validator_id == vote.voter_id);
                            assert(has_voter(votes_for(m, h), vote.voter_id));
                        }
                        return None;
                    }
                    k += 1;
                }
                proof {
                    let s = votes_for(m, h);
                    assert(!has_voter(s, vote.voter_id)) by {
                        if has_voter(s, vote.voter_id) {
                            let j = choose|j: int| 0 <= j < s.len() && s[j].validator_id == vote.voter_id;
                            assert(self.entries@[i as int].signatures@[j].validator_id == vote.voter_id);
                        }
                    }
                }
                let mut sigs = copy_signatures(&self.entries[i].signatures);
                sigs.push(sig);
                let count = sigs.len();
                let cert_sigs = if count == self.quorum_threshold {
                    Some(copy_signatures(&sigs))
                } else {
                    None
                };
                self.entries.set(i, BlockVotes { block_hash: h, signatures: sigs });
                proof {
                    let s2 = signatures_model(self.entries@[i as int].signatures@);
                    assert(s2 =~= votes_for(m, h).push(sig@));
                    assert forall|j: int| 0 <= j < self.entries@.len() implies distinct_voters(
                        signatures_model(#[trigger] self.entries@[j].signatures@),
                    ) && self.entries@[j].signatures@.len() > 0 by {
                        if j == i {
                            assert forall|a: int, b: int| 0 <= a < b < s2.len() implies s2[a].validator_id != s2[b].validator_id by {
                                if b == s2.len() - 1 {
                                    assert(old_self.entries@[i as int].signatures@[a].validator_id != sig.validator_id);
                                }
                            }
                        }
                    }
                    assert(self.wf());
                    let nm = self.model();
                    let em = spec_add_vote(m, vote@, parent_hash, height).0;
                    assert(nm.order =~= em.order);
                    assert forall|k2: [u8; 32]| #[trigger] nm.votes.contains_key(k2) <==> em.votes.contains_key(k2) by {
                        if nm.votes.contains_key(k2) {
                            let j = self.index_of(k2);
                            assert(old_self.entries@[j].block_hash == k2);
                        }
                        if em.votes.contains_key(k2) && k2 != h {
                            let j = old_self.index_of(k2);
                            assert(self.entries@[j].block_hash == k2);
                        }
                    }
                    assert forall|k2: [u8; 32]| #[trigger] nm.votes.contains_key(k2) implies nm.votes[k2] == em.votes[k2] by {
                        let j = self.index_of(k2);
                        self.lemma_index_of(j);
                        if k2 != h {
                            old_self.lemma_index_of(j);
                        }
                    }
                    assert(nm.votes =~= em.votes);
                }
                match cert_sigs {
                    Some(cs) => {
                        let cert = FinalityCertificate {
                            zone_id: self.zone_id,
                            epoch: self.epoch,
                            height,
                            parent_hash,
                            block_hash: h,
                            signatures: cs,
                        };
                        proof { self.lemma_index_of(i as int); }
                        Some(cert)
                    },
                    None => None,
                }
            },
            None => {
                proof {
                    assert(!m.votes.contains_key(h));
                    assert(votes_for(m, h) =~= Seq::empty());
                }
                let mut sigs: Vec<CertSignature> = Vec::new();
                sigs.push(sig);
                let count = sigs.len();
                let cert_sigs = if count == self.quorum_threshold {
                    Some(copy_signatures(&sigs))
                } else {
                    None
                };
                self.entries.push(BlockVotes { block_hash: h, signatures: sigs });
                proof {
                    let n = self.entries@.len() - 1;
                    assert forall|a: int, b: int| 0 <= a < b < self.entries@.len() implies self.entries@[a].block_hash != self.entries@[b].block_hash by {
                        if b == n {
                            assert(old_self.entries@[a].block_hash != h);
                        }
                    }
                    assert(self.wf());
                    let nm = self.model();
                    let em = spec_add_vote(m, vote@, parent_hash, height).0;
                    assert(nm.order =~= em.order);
                    assert forall|k2: [u8; 32]| #[trigger] nm.votes.contains_key(k2) <==> em.votes.contains_key(k2) by {
                        if nm.votes.contains_key(k2) && k2 != h {
                            let j = self.index_of(k2);
                            assert(old_self.entries@[j].block_hash == k2);
                        }
                        if em.votes.contains_key(k2) && k2 != h {
                            let j = old_self.index_of(k2);
                            assert(self.entries@[j].block_hash == k2);
                        }
                        if k2 == h {
                            assert(self.entries@[n].block_hash == h);
                        }
                    }
                    assert forall|k2: [u8; 32]| #[trigger] nm.votes.contains_key(k2) implies nm.votes[k2] == em.votes[k2] by {
                        let j = self.index_of(k2);
                        self.lemma_index_of(j);
                        if k2 != h {
                            old_self.lemma_index_of(j);
                        } else {
                            assert(signatures_model(self.entries@[n].signatures@) =~= seq![sig@]);
                        }
                    }
                    assert(nm.votes =~= em.votes);
                    self.lemma_index_of(n);
                }
                match cert_sigs {
                    Some(cs) => {
                        let cert = FinalityCertificate {
                            zone_id: self.zone_id,
                            epoch: self.epoch,
                            height,
                            parent_hash,
                            block_hash: h,
                            signatures: cs,
                        };
                        Some(cert)
                    },
                    None => None,
                }
            },
        }
    }
}

} // verus!
