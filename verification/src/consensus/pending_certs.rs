//! Bounded buffer of out-of-order certificates waiting for their parent.
use vstd::prelude::*;
use vstd::multiset::Multiset;
use crate::bytes::bytes32_eq;
use crate::consensus::engine::{spec_apply_certificate, ZoneConsensus, ZoneState};
use crate::types::{certs_model, CertificateModel, FinalityCertificate};

verus! {

/// Model of a [`PendingCertBuffer`]: the buffered certificates in order and
/// the capacity.
pub struct PendingModel {
    pub certs: Seq<CertificateModel>,
    pub max_size: usize,
}

/// Bounded buffer for out-of-order certificates waiting for their parent
/// to arrive. Deduplicates by `block_hash` and purges stale entries.
pub struct PendingCertBuffer {
    certs: Vec<FinalityCertificate>,
    max_size: usize,
}

impl View for PendingCertBuffer {
    type V = PendingModel;

    closed spec fn view(&self) -> PendingModel {
        PendingModel { certs: certs_model(self.certs@), max_size: self.max_size }
    }
}

/// Whether some certificate in `s` certifies `h`.
pub open spec fn has_block(s: Seq<CertificateModel>, h: [u8; 32]) -> bool {
    exists|i: int| 0 <= i < s.len() && s[i].block_hash == h
}

/// Whether no two certificates in `s` certify the same block.
pub open spec fn distinct_blocks(s: Seq<CertificateModel>) -> bool {
    forall|i: int, j: int| 0 <= i < j < s.len() ==> s[i].block_hash != s[j].block_hash
}

/// A buffered certificate is stale once its block is the head or lies
/// below the engine's height.
pub open spec fn is_stale(s: ZoneState, c: CertificateModel) -> bool {
    c.block_hash == s.parent_hash || c.height < s.height
}

/// The engine after the buffer applies `c`: the certificate is applied and
/// the fork-recovery flag is consumed.
pub open spec fn drain_step(s: ZoneState, c: CertificateModel) -> ZoneState {
    ZoneState { fork_recovery_used: false, ..spec_apply_certificate(s, c).0 }
}

/// The state with the warmup period ended.
pub open spec fn warmup_cleared(s: ZoneState) -> ZoneState {
    ZoneState { warmup_ticks: 0, ..s }
}

/// `certs`, applied one after the other from `s`, are each fresh (not the
/// head) and accepted, and lead to `e`; refused certificates in between
/// can only have ended the warmup period.
pub open spec fn applies_in_order(s: ZoneState, certs: Seq<CertificateModel>, e: ZoneState) -> bool
    decreases certs.len(),
{
    if certs.len() == 0 {
        e == s || e == warmup_cleared(s)
    } else {
        &&& certs[0].block_hash != s.parent_hash
        &&& spec_apply_certificate(s, certs[0]).1
        &&& applies_in_order(drain_step(s, certs[0]), certs.drop_first(), e)
    }
}

/// Applying a certificate does not depend on the warmup period, and a
/// refused certificate at most ends it.
pub proof fn lemma_apply_ignores_warmup(s: ZoneState, c: CertificateModel)
    ensures
        spec_apply_certificate(warmup_cleared(s), c).1 == spec_apply_certificate(s, c).1,
        c.block_hash != s.parent_hash && spec_apply_certificate(s, c).1 ==> spec_apply_certificate(warmup_cleared(s), c)
            == spec_apply_certificate(s, c),
        !spec_apply_certificate(s, c).1 ==> (spec_apply_certificate(s, c).0 == s
            || spec_apply_certificate(s, c).0 == warmup_cleared(s)),
        is_stale(warmup_cleared(s), c) == is_stale(s, c),
{
}

/// Whether the heights in `s` never decrease.
pub open spec fn sorted_by_height(s: Seq<CertificateModel>) -> bool {
    forall|i: int, j: int| 0 <= i <= j < s.len() ==> s[i].height <= s[j].height
}

/// Whether every element of `a` occurs in `b`.
pub open spec fn drawn_from(a: Seq<CertificateModel>, b: Seq<CertificateModel>) -> bool {
    forall|i: int| 0 <= i < a.len() ==> #[trigger] b.contains(a[i])
}

/// Extending an accepted chain by one more accepted certificate.
pub proof fn lemma_applies_push(s: ZoneState, certs: Seq<CertificateModel>, e: ZoneState, c: CertificateModel)
    requires
        applies_in_order(s, certs, e),
        c.block_hash != e.parent_hash,
        spec_apply_certificate(e, c).1,
    ensures
        applies_in_order(s, certs.push(c), drain_step(e, c)),
    decreases certs.len(),
{
    if certs.len() == 0 {
        lemma_apply_ignores_warmup(s, c);
        assert(certs.push(c).drop_first() =~= Seq::<CertificateModel>::empty());
        assert(certs.push(c)[0] == c);
        reveal_with_fuel(applies_in_order, 2);
    } else {
        lemma_applies_push(drain_step(s, certs[0]), certs.drop_first(), e, c);
        assert(certs.push(c).drop_first() =~= certs.drop_first().push(c));
        assert(certs.push(c)[0] == certs[0]);
    }
}

/// A refused, fresh certificate keeps the chain valid.
pub proof fn lemma_applies_refused(s: ZoneState, certs: Seq<CertificateModel>, e: ZoneState, c: CertificateModel)
    requires
        applies_in_order(s, certs, e),
        !spec_apply_certificate(e, c).1,
    ensures
        applies_in_order(s, certs, spec_apply_certificate(e, c).0),
    decreases certs.len(),
{
    lemma_apply_ignores_warmup(e, c);
    if certs.len() > 0 {
        lemma_applies_refused(drain_step(s, certs[0]), certs.drop_first(), e, c);
    }
}

/// A certificate the drain let go: below the engine's final height, or
/// certifying the head it started from or a block it applied.
pub open spec fn dropped_stale(start: ZoneState, applied: Seq<CertificateModel>, end: ZoneState, c: CertificateModel) -> bool {
    c.height < end.height || c.block_hash == start.parent_hash || has_block(applied, c.block_hash)
}

/// Applying a certificate never lowers the height; an accepted fresh one
/// becomes the head, and a refused one leaves the head as it was.
pub proof fn lemma_apply_height_head(s: ZoneState, c: CertificateModel)
    requires
        s.height < u64::MAX,
        c.height < u64::MAX,
    ensures
        spec_apply_certificate(s, c).0.height >= s.height,
        spec_apply_certificate(s, c).1 && c.block_hash != s.parent_hash ==> spec_apply_certificate(s, c).0.parent_hash
            == c.block_hash,
        !spec_apply_certificate(s, c).1 ==> spec_apply_certificate(s, c).0.parent_hash == s.parent_hash,
{
}

/// Dropped certificates stay accounted for as the engine moves on and the
/// applied list grows.
proof fn lemma_dropped_kept(
    e0: ZoneState,
    applied: Seq<CertificateModel>,
    e: ZoneState,
    applied2: Seq<CertificateModel>,
    e2: ZoneState,
    dropped: Seq<CertificateModel>,
)
    requires
        forall|k: int| 0 <= k < dropped.len() ==> dropped_stale(e0, applied, e, #[trigger] dropped[k]),
        e2.height >= e.height,
        applied.is_prefix_of(applied2),
    ensures
        forall|k: int| 0 <= k < dropped.len() ==> dropped_stale(e0, applied2, e2, #[trigger] dropped[k]),
{
    assert forall|k: int| 0 <= k < dropped.len() implies dropped_stale(e0, applied2, e2, #[trigger] dropped[k]) by {
        if has_block(applied, dropped[k].block_hash) {
            let j = choose|j: int| 0 <= j < applied.len() && applied[j].block_hash == dropped[k].block_hash;
            assert(applied2[j] == applied[j]);
        }
    }
}

/// Taking the first element off the rest of a sequence removes one copy of
/// it from the multiset.
proof fn lemma_rest_step(s: Seq<CertificateModel>, i: int)
    requires
        0 <= i < s.len(),
    ensures
        s.subrange(i, s.len() as int).to_multiset() == s.subrange(i + 1, s.len() as int).to_multiset().insert(s[i]),
{
    broadcast use vstd::seq_lib::group_to_multiset_ensures;
    broadcast use vstd::multiset::group_multiset_axioms;
    let a = s.subrange(i, s.len() as int);
    assert(a.remove(0) =~= s.subrange(i + 1, s.len() as int));
    assert(a[0] == s[i]);
    assert(a.contains(s[i]));
    assert(a.to_multiset() =~= a.remove(0).to_multiset().insert(s[i]));
}

/// Stable sort of certificates by height: repeatedly moves the first
/// lowest certificate to the output.
fn sort_by_height(v: Vec<FinalityCertificate>) -> (r: Vec<FinalityCertificate>)
    ensures
        r@.len() == v@.len(),
        sorted_by_height(certs_model(r@)),
        drawn_from(certs_model(r@), certs_model(v@)),
        certs_model(r@).to_multiset() == certs_model(v@).to_multiset(),
{
    let ghost orig = certs_model(v@);
    let mut rest = v;
    let mut out: Vec<FinalityCertificate> = Vec::new();
    proof {
        broadcast use vstd::seq_lib::group_to_multiset_ensures;
        broadcast use vstd::multiset::group_multiset_axioms;
        assert(certs_model(out@).to_multiset() =~= Multiset::empty());
        assert(certs_model(out@).to_multiset().add(certs_model(rest@).to_multiset()) =~= orig.to_multiset());
    }
    while rest.len() > 0
        invariant
            out@.len() + rest@.len() == orig.len(),
            sorted_by_height(certs_model(out@)),
            drawn_from(certs_model(out@), orig),
            drawn_from(certs_model(rest@), orig),
            certs_model(out@).to_multiset().add(certs_model(rest@).to_multiset()) == orig.to_multiset(),
            forall|i: int, j: int|
                0 <= i < out@.len() && 0 <= j < rest@.len() ==> out@[i].height <= rest@[j].height,
        decreases rest@.len(),
    {
        let mut best: usize = 0;
        let mut k: usize = 1;
        while k < rest.len()
            invariant
                1 <= k <= rest@.len(),
                best < rest@.len(),
                forall|j: int| 0 <= j < k ==> rest@[best as int].height <= rest@[j].height,
            decreases rest@.len() - k,
        {
            if rest[k].height < rest[best].height {
                best = k;
            }
            k += 1;
        }
        let ghost rest_before = rest@;
        let c = rest.remove(best);
        proof {
            assert(certs_model(rest_before).contains(c@)) by {
                assert(certs_model(rest_before)[best as int] == c@);
            }
            assert forall|i: int| 0 <= i < rest@.len() implies #[trigger] orig.contains(certs_model(rest@)[i]) by {
                if i < best {
                    assert(rest@[i] == rest_before[i]);
                    assert(certs_model(rest_before)[i] == certs_model(rest@)[i]);
                } else {
                    assert(rest@[i] == rest_before[i + 1]);
                    assert(certs_model(rest_before)[i + 1] == certs_model(rest@)[i]);
                }
            }
            assert forall|i: int, j: int|
                0 <= i < out@.len() + 1 && 0 <= j < rest@.len() implies out@.push(c)[i].height <= rest@[j].height by {
                if i == out@.len() {
                    if j < best {
                        assert(rest@[j] == rest_before[j]);
                    } else {
                        assert(rest@[j] == rest_before[j + 1]);
                    }
                } else {
                    if j < best {
                        assert(rest@[j] == rest_before[j]);
                    } else {
                        assert(rest@[j] == rest_before[j + 1]);
                    }
                }
            }
        }
        let ghost out_before = out@;
        out.push(c);
        proof {
            broadcast use vstd::seq_lib::group_to_multiset_ensures;
            broadcast use vstd::multiset::group_multiset_axioms;
            assert(certs_model(rest@) =~= certs_model(rest_before).remove(best as int));
            assert(certs_model(out@) =~= certs_model(out_before).push(c@));
            assert(certs_model(rest_before)[best as int] == c@);
            assert(certs_model(out@).to_multiset().add(certs_model(rest@).to_multiset()) =~= orig.to_multiset());
            assert forall|i: int, j: int| 0 <= i <= j < out@.len() implies certs_model(out@)[i].height <= certs_model(out@)[j].height by {
                if j == out@.len() - 1 && i < j {
                    assert(out_before[i].height <= rest_before[best as int].height);
                    assert(out@[i] == out_before[i]);
                } else if j < out@.len() - 1 {
                    assert(out@[i] == out_before[i]);
                    assert(out@[j] == out_before[j]);
                    assert(certs_model(out_before)[i].height <= certs_model(out_before)[j].height);
                }
            }
            assert forall|i: int| 0 <= i < out@.len() implies #[trigger] orig.contains(certs_model(out@)[i]) by {
                if i < out@.len() - 1 {
                    assert(certs_model(out@)[i] == certs_model(out_before)[i]);
                }
            }
        }
    }
    proof {
        broadcast use vstd::seq_lib::group_to_multiset_ensures;
        broadcast use vstd::multiset::group_multiset_axioms;
        assert(certs_model(rest@).to_multiset() =~= Multiset::empty());
        assert(certs_model(out@).to_multiset() =~= orig.to_multiset());
    }
    out
}

/// Keeps certificates from epoch `min_epoch - 1` onwards.
pub open spec fn epoch_at_least(min_epoch: u64) -> spec_fn(CertificateModel) -> bool {
    |c: CertificateModel| c.epoch + 1 >= min_epoch
}

impl PendingCertBuffer {
    /// An empty buffer holding at most `max_size` certificates.
    pub fn new(max_size: usize) -> (r: Self)
        ensures
            r@.certs == Seq::<CertificateModel>::empty(),
            r@.max_size == max_size,
    {
        let r = PendingCertBuffer { certs: Vec::new(), max_size };
        assert(r@.certs =~= Seq::<CertificateModel>::empty());
        r
    }

    /// Insert a certificate. Returns `false`, and leaves the buffer as it
    /// was, if the buffer is full or already holds a certificate for the
    /// same block.
    pub fn push(&mut self, cert: FinalityCertificate) -> (r: bool)
        ensures
            r == (!has_block(old(self)@.certs, cert.block_hash) && old(self)@.certs.len() < old(self)@.max_size),
            r ==> final(self)@.certs == old(self)@.certs.push(cert@),
            !r ==> final(self)@.certs == old(self)@.certs,
            final(self)@.max_size == old(self)@.max_size,
            distinct_blocks(old(self)@.certs) ==> distinct_blocks(final(self)@.certs),
            old(self)@.certs.len() <= old(self)@.max_size ==> final(self)@.certs.len() <= final(self)@.max_size,
    {
        let mut i: usize = 0;
        while i < self.certs.len()
            invariant
                i <= self.certs@.len(),
                forall|j: int| 0 <= j < i ==> self.certs@[j].block_hash != cert.block_hash,
            decreases self.certs@.len() - i,
        {
            if bytes32_eq(&self.certs[i].block_hash, &cert.block_hash) {
                assert(certs_model(self.certs@)[i as int].block_hash == cert.block_hash);
                return false;
            }
            i += 1;
        }
        proof {
            if has_block(certs_model(self.certs@), cert.block_hash) {
                let j = choose|j: int| 0 <= j < self.certs@.len() && certs_model(self.certs@)[j].block_hash == cert.block_hash;
                assert(self.certs@[j].block_hash == cert.block_hash);
            }
        }
        if self.certs.len() >= self.max_size {
            return false;
        }
        let ghost before = self.certs@;
        self.certs.push(cert);
        assert(certs_model(self.certs@) =~= certs_model(before).push(cert@));
        proof {
            let s2 = certs_model(self.certs@);
            let s1 = certs_model(before);
            if distinct_blocks(s1) {
                assert forall|a: int, b: int| 0 <= a < b < s2.len() implies s2[a].block_hash != s2[b].block_hash by {
                    if b == s2.len() - 1 {
                        assert(before[a].block_hash != s2[b].block_hash);
                    } else {
                        assert(s1[a] == s2[a] && s1[b] == s2[b]);
                    }
                }
            }
        }
        true
    }

    /// Apply, in height order, every buffered certificate whose parent is
    /// the engine's current head, repeating while that makes progress.
    /// Stale certificates (see [`is_stale`]) are purged. Returns the applied
    /// certificates, in the order they were applied, so callers can run
    /// side effects (zone-head store, mempool cleanup).
    pub fn drain_applicable(&mut self, eng: &mut ZoneConsensus) -> (r: Vec<FinalityCertificate>)
        requires
            old(eng).wf(),
            old(eng)@.round + old(self)@.certs.len() < u64::MAX,
            old(eng)@.height + old(self)@.certs.len() < u64::MAX,
            forall|i: int|
                0 <= i < old(self)@.certs.len() ==> #[trigger] old(self)@.certs[i].height + old(self)@.certs.len() < u64::MAX,
        ensures
            final(eng).wf(),
            applies_in_order(old(eng)@, certs_model(r@), final(eng)@),
            forall|i: int|
                0 <= i < final(self)@.certs.len() ==> !is_stale(final(eng)@, #[trigger] final(self)@.certs[i])
                    && !spec_apply_certificate(final(eng)@, final(self)@.certs[i]).1,
            drawn_from(certs_model(r@), old(self)@.certs),
            drawn_from(final(self)@.certs, old(self)@.certs),
            r@.len() + final(self)@.certs.len() <= old(self)@.certs.len(),
            final(self)@.max_size == old(self)@.max_size,
            final(eng)@.zone_id == old(eng)@.zone_id,
            exists|dropped: Seq<CertificateModel>| #![trigger dropped.to_multiset()] {
                &&& old(self)@.certs.to_multiset() == certs_model(r@).to_multiset().add(final(self)@.certs.to_multiset()).add(
                    dropped.to_multiset(),
                )
                &&& forall|k: int| 0 <= k < dropped.len() ==> dropped_stale(old(eng)@, certs_model(r@), final(eng)@, #[trigger] dropped[k])
            },
    {
        let ghost orig = certs_model(self.certs@);
        let ghost n = orig.len();
        let ghost e0 = eng@;
        let mut taken: Vec<FinalityCertificate> = Vec::new();
        std::mem::swap(&mut taken, &mut self.certs);
        self.certs = sort_by_height(taken);
        let mut applied: Vec<FinalityCertificate> = Vec::new();
        let ghost mut dropped: Seq<CertificateModel> = Seq::empty();
        proof {
            broadcast use vstd::seq_lib::group_to_multiset_ensures;
            broadcast use vstd::multiset::group_multiset_axioms;
            assert(certs_model(applied@).to_multiset() =~= Multiset::empty());
            assert(dropped.to_multiset() =~= Multiset::empty());
            assert(orig.to_multiset() =~= certs_model(applied@).to_multiset().add(certs_model(self.certs@).to_multiset()).add(
                dropped.to_multiset(),
            ));
        }
        let mut progress = true;
        while progress && self.certs.len() > 0
            invariant
                eng.wf(),
                eng@.zone_id == e0.zone_id,
                self.max_size == old(self)@.max_size,
                applies_in_order(e0, certs_model(applied@), eng@),
                drawn_from(certs_model(applied@), orig),
                drawn_from(certs_model(self.certs@), orig),
                applied@.len() + self.certs@.len() <= n,
                orig.to_multiset() == certs_model(applied@).to_multiset().add(certs_model(self.certs@).to_multiset()).add(
                    dropped.to_multiset(),
                ),
                forall|k: int| 0 <= k < dropped.len() ==> dropped_stale(e0, certs_model(applied@), eng@, #[trigger] dropped[k]),
                eng@.parent_hash == e0.parent_hash || has_block(certs_model(applied@), eng@.parent_hash),
                eng@.round + self.certs@.len() < u64::MAX,
                eng@.height + self.certs@.len() < u64::MAX,
                forall|i: int| 0 <= i < orig.len() ==> #[trigger] orig[i].height + n < u64::MAX,
                n == orig.len(),
                !progress ==> forall|i: int|
                    0 <= i < self.certs@.len() ==> !is_stale(eng@, #[trigger] certs_model(self.certs@)[i])
                        && !spec_apply_certificate(eng@, certs_model(self.certs@)[i]).1,
            decreases self.certs@.len() + if progress { 1int } else { 0int },
        {
            progress = false;
            let mut pass: Vec<FinalityCertificate> = Vec::new();
            std::mem::swap(&mut pass, &mut self.certs);
            let mut keep: Vec<FinalityCertificate> = Vec::new();
            let ghost e_pass = eng@;
            let ghost len_pass = pass@.len();
            let ghost pm = certs_model(pass@);
            proof {
                broadcast use vstd::seq_lib::group_to_multiset_ensures;
                broadcast use vstd::multiset::group_multiset_axioms;
                assert(pm.subrange(0, len_pass as int) =~= pm);
                assert(certs_model(keep@).to_multiset() =~= Multiset::empty());
                assert(orig.to_multiset() =~= certs_model(applied@).to_multiset().add(certs_model(keep@).to_multiset()).add(
                    pm.subrange(0, len_pass as int).to_multiset()).add(dropped.to_multiset()));
            }
            let mut i: usize = 0;
            while i < pass.len()
                invariant
                    eng.wf(),
                    eng@.zone_id == e0.zone_id,
                    i <= pass@.len(),
                    pass@.len() == len_pass,
                    len_pass > 0,
                    applies_in_order(e0, certs_model(applied@), eng@),
                    drawn_from(certs_model(applied@), orig),
                    drawn_from(certs_model(pass@), orig),
                    drawn_from(certs_model(keep@), orig),
                    applied@.len() + keep@.len() + (pass@.len() - i) <= n,
                    pm == certs_model(pass@),
                    orig.to_multiset() == certs_model(applied@).to_multiset().add(certs_model(keep@).to_multiset()).add(
                        pm.subrange(i as int, len_pass as int).to_multiset()).add(dropped.to_multiset()),
                    forall|k: int| 0 <= k < dropped.len() ==> dropped_stale(e0, certs_model(applied@), eng@, #[trigger] dropped[k]),
                    eng@.parent_hash == e0.parent_hash || has_block(certs_model(applied@), eng@.parent_hash),
                    keep@.len() <= i,
                    keep@.len() + (pass@.len() - i) <= len_pass,
                    progress ==> keep@.len() + (pass@.len() - i) < len_pass,
                    eng@.round + keep@.len() + (pass@.len() - i) < u64::MAX,
                    eng@.height + keep@.len() + (pass@.len() - i) < u64::MAX,
                    forall|k: int| 0 <= k < orig.len() ==> #[trigger] orig[k].height + n < u64::MAX,
                    n == orig.len(),
                    !progress ==> (eng@ == e_pass || eng@ == warmup_cleared(e_pass)),
                    !progress ==> forall|k: int|
                        0 <= k < keep@.len() ==> !is_stale(eng@, #[trigger] certs_model(keep@)[k])
                            && !spec_apply_certificate(eng@, certs_model(keep@)[k]).1,
                decreases pass@.len() - i,
            {
                let pc = pass[i].clone();
                proof {
                    assert(certs_model(pass@)[i as int] == pc@);
                    assert(orig.contains(pc@));
                    let k = choose|k: int| 0 <= k < orig.len() && orig[k] == pc@;
                    assert(orig[k].height + n < u64::MAX);
                    lemma_rest_step(pm, i as int);
                }
                let stale = bytes32_eq(&pc.block_hash, eng.parent_hash()) || pc.height < eng.height();
                if stale {
                    proof {
                        broadcast use vstd::seq_lib::group_to_multiset_ensures;
                        broadcast use vstd::multiset::group_multiset_axioms;
                        let d0 = dropped;
                        dropped = dropped.push(pc@);
                        assert(dropped.to_multiset() =~= d0.to_multiset().insert(pc@));
                        assert(orig.to_multiset() =~= certs_model(applied@).to_multiset().add(certs_model(keep@).to_multiset()).add(
                            pm.subrange(i + 1, len_pass as int).to_multiset()).add(dropped.to_multiset()));
                        assert forall|k: int| 0 <= k < dropped.len() implies dropped_stale(e0, certs_model(applied@), eng@, #[trigger] dropped[k]) by {
                            if k < d0.len() {
                                assert(dropped[k] == d0[k]);
                            } else {
                                assert(dropped[k] == pc@);
                            }
                        }
                    }
                } else {
                    let ghost e_before = eng@;
                    proof {
                        lemma_apply_ignores_warmup(e_pass, pc@);
                        lemma_apply_ignores_warmup(e_before, pc@);
                    }
                    if eng.apply_certificate(&pc) {
                        let _ = eng.take_fork_recovery_used();
                        proof {
                            lemma_apply_height_head(e_before, pc@);
                            assert(certs_model(applied@).is_prefix_of(certs_model(applied@).push(pc@))) by {
                                assert(certs_model(applied@).push(pc@).subrange(0, certs_model(applied@).len() as int) =~= certs_model(applied@));
                            }
                            lemma_dropped_kept(e0, certs_model(applied@), e_before, certs_model(applied@).push(pc@), eng@, dropped);
                            lemma_applies_push(e0, certs_model(applied@), e_before, pc@);
                            assert(certs_model(applied@.push(pc)) =~= certs_model(applied@).push(pc@));
                        }
                        let ghost applied_before = applied@;
                        applied.push(pc);
                        proof {
                            broadcast use vstd::seq_lib::group_to_multiset_ensures;
                            broadcast use vstd::multiset::group_multiset_axioms;
                            assert(certs_model(applied@) == certs_model(applied_before).push(pc@));
                            assert(certs_model(applied@).to_multiset() =~= certs_model(applied_before).to_multiset().insert(pc@));
                            assert(orig.to_multiset() =~= certs_model(applied@).to_multiset().add(certs_model(keep@).to_multiset()).add(
                                pm.subrange(i + 1, len_pass as int).to_multiset()).add(dropped.to_multiset()));
                            assert(certs_model(applied@)[applied_before.len() as int].block_hash == eng@.parent_hash);
                            assert(has_block(certs_model(applied@), eng@.parent_hash));
                            assert forall|k: int| 0 <= k < certs_model(applied@).len() implies #[trigger] orig.contains(certs_model(applied@)[k]) by {
                                if k < applied_before.len() {
                                    assert(certs_model(applied@)[k] == certs_model(applied_before)[k]);
                                }
                            }
                        }
                        progress = true;
                    } else {
                        proof {
                            lemma_applies_refused(e0, certs_model(applied@), e_before, pc@);
                            lemma_apply_height_head(e_before, pc@);
                            assert(certs_model(applied@).is_prefix_of(certs_model(applied@))) by {
                                assert(certs_model(applied@).subrange(0, certs_model(applied@).len() as int) =~= certs_model(applied@));
                            }
                            lemma_dropped_kept(e0, certs_model(applied@), e_before, certs_model(applied@), eng@, dropped);
                        }
                        let ghost keep_before = keep@;
                        keep.push(pc);
                        proof {
                            broadcast use vstd::seq_lib::group_to_multiset_ensures;
                            broadcast use vstd::multiset::group_multiset_axioms;
                            assert(certs_model(keep@) =~= certs_model(keep_before).push(pc@));
                            assert(certs_model(keep@).to_multiset() =~= certs_model(keep_before).to_multiset().insert(pc@));
                            assert(orig.to_multiset() =~= certs_model(applied@).to_multiset().add(certs_model(keep@).to_multiset()).add(
                                pm.subrange(i + 1, len_pass as int).to_multiset()).add(dropped.to_multiset()));
                            assert forall|k: int| 0 <= k < certs_model(keep@).len() implies #[trigger] orig.contains(certs_model(keep@)[k]) by {
                                if k < keep_before.len() {
                                    assert(certs_model(keep@)[k] == certs_model(keep_before)[k]);
                                }
                            }
                            assert forall|k: int| 0 <= k < keep@.len() && !progress implies !is_stale(eng@, #[trigger] certs_model(keep@)[k])
                                && !spec_apply_certificate(eng@, certs_model(keep@)[k]).1 by {
                                lemma_apply_ignores_warmup(e_pass, certs_model(keep@)[k]);
                                lemma_apply_ignores_warmup(e_before, certs_model(keep@)[k]);
                                if k < keep_before.len() {
                                    assert(certs_model(keep@)[k] == certs_model(keep_before)[k]);
                                }
                            }
                        }
                    }
                }
                i += 1;
            }
            proof {
                broadcast use vstd::seq_lib::group_to_multiset_ensures;
                broadcast use vstd::multiset::group_multiset_axioms;
                assert(pm.subrange(len_pass as int, len_pass as int).to_multiset() =~= Multiset::empty());
                assert(orig.to_multiset() =~= certs_model(applied@).to_multiset().add(certs_model(keep@).to_multiset()).add(
                    dropped.to_multiset()));
            }
            self.certs = keep;
        }
        proof {
            assert forall|i: int| 0 <= i < certs_model(self.certs@).len() implies !is_stale(eng@, #[trigger] certs_model(self.certs@)[i])
                && !spec_apply_certificate(eng@, certs_model(self.certs@)[i]).1 by {
                if progress {
                    assert(self.certs@.len() == 0);
                }
            }
            assert(dropped.to_multiset() == dropped.to_multiset());
        }
        applied
    }

    /// Drop certificates from epochs older than `min_epoch - 1`.
    pub fn retain_epoch(&mut self, min_epoch: u64)
        ensures
            final(self)@.certs == old(self)@.certs.filter(epoch_at_least(min_epoch)),
            final(self)@.max_size == old(self)@.max_size,
    {
        let ghost pred = epoch_at_least(min_epoch);
        let ghost orig = certs_model(self.certs@);
        let mut pass: Vec<FinalityCertificate> = Vec::new();
        std::mem::swap(&mut pass, &mut self.certs);
        let mut out: Vec<FinalityCertificate> = Vec::new();
        let mut i: usize = 0;
        while i < pass.len()
            invariant
                i <= pass@.len(),
                certs_model(pass@) == orig,
                certs_model(out@) == orig.subrange(0, i as int).filter(pred),
                pred == epoch_at_least(min_epoch),
                self.max_size == old(self)@.max_size,
            decreases pass@.len() - i,
        {
            let c = pass[i].clone();
            proof {
                assert(orig.subrange(0, i + 1) =~= orig.subrange(0, i as int).push(orig[i as int]));
                orig.subrange(0, i as int).lemma_filter_push(orig[i as int], pred);
                assert(c@ == orig[i as int]);
                assert(pred(orig[i as int]) == (c.epoch + 1 >= min_epoch));
            }
            if min_epoch == 0 || c.epoch >= min_epoch - 1 {
                let ghost before = out@;
                out.push(c);
                assert(certs_model(out@) =~= certs_model(before).push(c@));
            }
            i += 1;
        }
        assert(orig.subrange(0, orig.len() as int) =~= orig);
        self.certs = out;
    }

    /// Purge the oldest entries when above 75% of capacity, keeping the
    /// newest `max_size * 3 / 4`.
    pub fn purge_overflow(&mut self)
        requires
            old(self)@.max_size * 3 <= usize::MAX,
        ensures
            final(self)@.max_size == old(self)@.max_size,
            ({
                let t = old(self)@.max_size * 3 / 4;
                let s = old(self)@.certs;
                final(self)@.certs == if s.len() > t { s.subrange(s.len() - t, s.len() as int) } else { s }
            }),
    {
        let threshold = self.max_size * 3 / 4;
        if self.certs.len() > threshold {
            let drop_count = self.certs.len() - threshold;
            let ghost before = self.certs@;
            let kept = self.certs.split_off(drop_count);
            self.certs = kept;
            assert(certs_model(self.certs@) =~= certs_model(before).subrange(before.len() - threshold, before.len() as int));
        }
    }

    pub fn len(&self) -> (r: usize)
        ensures
            r == self@.certs.len(),
    {
        self.certs.len()
    }

    pub fn is_empty(&self) -> (r: bool)
        ensures
            r == (self@.certs.len() == 0),
    {
        self.certs.len() == 0
    }

    pub fn clear(&mut self)
        ensures
            final(self)@.certs == Seq::<CertificateModel>::empty(),
            final(self)@.max_size == old(self)@.max_size,
    {
        self.certs = Vec::new();
        assert(certs_model(self.certs@) =~= Seq::<CertificateModel>::empty());
    }

    /// The buffered certificates, in order.
    pub fn iter(&self) -> (r: &[FinalityCertificate])
        ensures
            certs_model(r@) == self@.certs,
    {
        self.certs.as_slice()
    }
}

} // verus!
