//! Per-zone mempool of candidate spend transactions.
use vstd::prelude::*;
use crate::bytes::bytes32_eq;
use crate::types::{copy_spends, spends_model, Nullifier, SpendModel, SpendTransaction, ZoneId};

verus! {

/// Model of a [`Mempool`]: the zone, the pending spends in arrival order,
/// and the capacity.
pub struct MempoolModel {
    pub zone_id: ZoneId,
    pub entries: Seq<SpendModel>,
    pub max_size: usize,
}

/// Whether a spend with nullifier `n` is pending in `s`.
pub open spec fn has_nullifier(s: Seq<SpendModel>, n: Nullifier) -> bool {
    exists|i: int| 0 <= i < s.len() && s[i].nullifier == n
}

/// Whether no two pending spends share a nullifier.
pub open spec fn distinct_nullifiers(s: Seq<SpendModel>) -> bool {
    forall|i: int, j: int| 0 <= i < j < s.len() ==> s[i].nullifier != s[j].nullifier
}

/// Well-formedness: at most one spend per nullifier, and never more than
/// the capacity.
pub open spec fn mempool_wf(m: MempoolModel) -> bool {
    distinct_nullifiers(m.entries) && m.entries.len() <= m.max_size
}

/// Effect of inserting one spend, and whether it was accepted: a full
/// mempool, or one that already holds the nullifier, refuses it.
pub open spec fn spec_insert(m: MempoolModel, s: SpendModel) -> (MempoolModel, bool) {
    if m.entries.len() >= m.max_size || has_nullifier(m.entries, s.nullifier) {
        (m, false)
    } else {
        (MempoolModel { entries: m.entries.push(s), ..m }, true)
    }
}

/// Effect of inserting spends one after the other, and how many were
/// accepted.
pub open spec fn spec_insert_all(m: MempoolModel, ss: Seq<SpendModel>) -> (MempoolModel, nat)
    decreases ss.len(),
{
    if ss.len() == 0 {
        (m, 0)
    } else {
        let (m1, k) = spec_insert_all(m, ss.drop_last());
        let (m2, ok) = spec_insert(m1, ss.last());
        (m2, if ok { k + 1 } else { k })
    }
}

/// Number of spends a drain or peek of `max` hands out.
pub open spec fn take_count(m: MempoolModel, max: usize) -> int {
    if m.entries.len() < max { m.entries.len() as int } else { max as int }
}

/// The spends kept by a sequence of keep/drop decisions.
pub open spec fn select(s: Seq<SpendModel>, d: Seq<bool>) -> Seq<SpendModel>
    decreases s.len(),
{
    if s.len() == 0 || d.len() != s.len() {
        Seq::empty()
    } else if d.last() {
        select(s.drop_last(), d.drop_last()).push(s.last())
    } else {
        select(s.drop_last(), d.drop_last())
    }
}

/// Whether nullifier `n` occurs in `ns`.
pub open spec fn in_nullifiers(ns: Seq<Nullifier>, n: Nullifier) -> bool {
    exists|i: int| 0 <= i < ns.len() && ns[i] == n
}

/// Keeps the spends whose nullifier is not in `ns`.
pub open spec fn not_in(ns: Seq<Nullifier>) -> spec_fn(SpendModel) -> bool {
    |s: SpendModel| !in_nullifiers(ns, s.nullifier)
}

/// Per-zone mempool of candidate spend transactions.
///
/// Invariants: at most one spend per nullifier (prevents double-spend at
/// mempool level), spends are drained in FIFO order by the leader for block
/// proposals, and the capacity bounds memory use.
pub struct Mempool {
    zone_id: ZoneId,
    queue: Vec<SpendTransaction>,
    max_size: usize,
}

impl View for Mempool {
    type V = MempoolModel;

    closed spec fn view(&self) -> MempoolModel {
        MempoolModel { zone_id: self.zone_id, entries: spends_model(self.queue@), max_size: self.max_size }
    }
}

/// Filters `v` by a predicate on models, moving the kept elements.
proof fn lemma_filter_step(s: Seq<SpendModel>, i: int, p: spec_fn(SpendModel) -> bool)
    requires
        0 <= i < s.len(),
    ensures
        s.subrange(0, i + 1).filter(p) == if p(s[i]) {
            s.subrange(0, i).filter(p).push(s[i])
        } else {
            s.subrange(0, i).filter(p)
        },
{
    assert(s.subrange(0, i + 1) =~= s.subrange(0, i).push(s[i]));
    s.subrange(0, i).lemma_filter_push(s[i], p);
}

impl Mempool {
    /// Position of the spend with nullifier `n`, if pending.
    fn position(&self, n: &Nullifier) -> (r: Option<usize>)
        ensures
            r matches Some(i) ==> i < self@.entries.len() && self@.entries[i as int].nullifier == *n,
            r is None ==> !has_nullifier(self@.entries, *n),
    {
        let mut i: usize = 0;
        while i < self.queue.len()
            invariant
                i <= self.queue@.len(),
                forall|j: int| 0 <= j < i ==> self.queue@[j].nullifier != *n,
            decreases self.queue@.len() - i,
        {
            if bytes32_eq(&self.queue[i].nullifier.0, &n.0) {
                assert(self@.entries[i as int].nullifier == *n);
                return Some(i);
            }
            i += 1;
        }
        proof {
            if has_nullifier(self@.entries, *n) {
                let j = choose|j: int| 0 <= j < self@.entries.len() && self@.entries[j].nullifier == *n;
                assert(self.queue@[j].nullifier == *n);
            }
        }
        None
    }

    /// An empty mempool for `zone_id` holding at most `max_size` spends.
    pub fn new(zone_id: ZoneId, max_size: usize) -> (r: Self)
        ensures
            r@ == (MempoolModel { zone_id, entries: Seq::empty(), max_size }),
            mempool_wf(r@),
    {
        let r = Mempool { zone_id, queue: Vec::new(), max_size };
        assert(r@.entries =~= Seq::<SpendModel>::empty());
        r
    }

    /// Add a spend to the mempool. Returns `false` if the nullifier is
    /// already present or the mempool is full.
    pub fn insert(&mut self, spend: SpendTransaction) -> (r: bool)
        ensures
            (final(self)@, r) == spec_insert(old(self)@, spend@),
            mempool_wf(old(self)@) ==> mempool_wf(final(self)@),
    {
        if self.queue.len() >= self.max_size {
            return false;
        }
        match self.position(&spend.nullifier) {
            Some(_) => false,
            None => {
                let ghost before = self.queue@;
                let ghost sm = spend@;
                self.queue.push(spend);
                proof {
                    assert(spends_model(self.queue@) =~= spends_model(before).push(sm));
                    let e = spends_model(self.queue@);
                    if distinct_nullifiers(spends_model(before)) {
                        assert forall|i: int, j: int| 0 <= i < j < e.len() implies e[i].nullifier != e[j].nullifier by {
                            if j == e.len() - 1 {
                                assert(spends_model(before)[i].nullifier != sm.nullifier);
                            } else {
                                assert(e[i] == spends_model(before)[i] && e[j] == spends_model(before)[j]);
                            }
                        }
                    }
                }
                true
            },
        }
    }

    /// Insert a batch of spends one after the other. Returns the number of
    /// successfully inserted spends.
    pub fn insert_batch(&mut self, spends: Vec<SpendTransaction>) -> (r: usize)
        ensures
            final(self)@ == spec_insert_all(old(self)@, spends_model(spends@)).0,
            r == spec_insert_all(old(self)@, spends_model(spends@)).1,
            mempool_wf(old(self)@) ==> mempool_wf(final(self)@),
    {
        let ghost m0 = self@;
        let ghost all = spends_model(spends@);
        let mut inserted: usize = 0;
        let mut i: usize = 0;
        while i < spends.len()
            invariant
                i <= spends@.len(),
                all == spends_model(spends@),
                (self@, inserted as nat) == spec_insert_all(m0, all.subrange(0, i as int)),
                inserted <= i,
                mempool_wf(m0) ==> mempool_wf(self@),
            decreases spends@.len() - i,
        {
            let x = spends[i].clone();
            proof {
                let pre = all.subrange(0, i + 1);
                assert(pre.drop_last() =~= all.subrange(0, i as int));
                assert(pre.last() == x@);
            }
            if self.insert(x) {
                inserted += 1;
            }
            i += 1;
        }
        assert(all.subrange(0, all.len() as int) =~= all);
        inserted
    }

    /// Drain up to `max` spends from the mempool, in FIFO order, for a
    /// block proposal. On round timeout the caller should call
    /// `reinsert_batch` to return un-finalized transactions.
    pub fn drain_proposal(&mut self, max: usize) -> (r: Vec<SpendTransaction>)
        ensures
            spends_model(r@) == old(self)@.entries.subrange(0, take_count(old(self)@, max)),
            final(self)@ == (MempoolModel {
                entries: old(self)@.entries.subrange(take_count(old(self)@, max), old(self)@.entries.len() as int),
                ..old(self)@
            }),
            mempool_wf(old(self)@) ==> mempool_wf(final(self)@),
    {
        let k = if self.queue.len() < max { self.queue.len() } else { max };
        let ghost before = self.queue@;
        let mut taken = self.queue.split_off(k);
        std::mem::swap(&mut taken, &mut self.queue);
        assert(spends_model(taken@) =~= spends_model(before).subrange(0, k as int));
        assert(spends_model(self.queue@) =~= spends_model(before).subrange(k as int, before.len() as int));
        proof {
            let e = spends_model(self.queue@);
            let e0 = spends_model(before);
            if distinct_nullifiers(e0) {
                assert forall|i: int, j: int| 0 <= i < j < e.len() implies e[i].nullifier != e[j].nullifier by {
                    assert(e[i] == e0[i + k] && e[j] == e0[j + k]);
                }
            }
        }
        taken
    }

    /// Re-insert transactions that were drained for a proposal that never
    /// finalized (e.g. round timeout). Duplicates (by nullifier) are
    /// skipped, and insertion stops once the mempool is full.
    pub fn reinsert_batch(&mut self, txs: Vec<SpendTransaction>)
        ensures
            final(self)@ == spec_insert_all(old(self)@, spends_model(txs@)).0,
            mempool_wf(old(self)@) ==> mempool_wf(final(self)@),
    {
        let _ = self.insert_batch(txs);
    }

    /// Clones of up to `max` spends, in FIFO order, without removing them.
    pub fn peek(&self, max: usize) -> (r: Vec<SpendTransaction>)
        ensures
            spends_model(r@) == self@.entries.subrange(0, take_count(self@, max)),
    {
        let k = if self.queue.len() < max { self.queue.len() } else { max };
        let mut out: Vec<SpendTransaction> = Vec::new();
        let mut i: usize = 0;
        while i < k
            invariant
                k <= self.queue@.len(),
                i <= k,
                out@.len() == i,
                forall|j: int| 0 <= j < i ==> #[trigger] out@[j]@ == self.queue@[j]@,
            decreases k - i,
        {
            out.push(self.queue[i].clone());
            i += 1;
        }
        assert(spends_model(out@) =~= self@.entries.subrange(0, k as int));
        out
    }

    /// Whether a spend with this nullifier is pending.
    pub fn contains_nullifier(&self, nullifier: &Nullifier) -> (r: bool)
        ensures
            r == has_nullifier(self@.entries, *nullifier),
    {
        self.position(nullifier).is_some()
    }

    pub fn len(&self) -> (r: usize)
        ensures
            r == self@.entries.len(),
    {
        self.queue.len()
    }

    pub fn is_empty(&self) -> (r: bool)
        ensures
            r == (self@.entries.len() == 0),
    {
        self.queue.len() == 0
    }

    pub fn zone_id(&self) -> (r: ZoneId)
        ensures
            r == self@.zone_id,
    {
        self.zone_id
    }

    /// Remove all spends whose nullifiers are in the given list (after
    /// finalization).
    pub fn remove_nullifiers(&mut self, nullifiers: &[Nullifier])
        ensures
            final(self)@ == (MempoolModel { entries: old(self)@.entries.filter(not_in(nullifiers@)), ..old(self)@ }),
            mempool_wf(old(self)@) ==> mempool_wf(final(self)@),
    {
        let ghost e0 = self@.entries;
        let ghost p = not_in(nullifiers@);
        let mut pass: Vec<SpendTransaction> = Vec::new();
        std::mem::swap(&mut pass, &mut self.queue);
        let mut out: Vec<SpendTransaction> = Vec::new();
        let mut i: usize = 0;
        while i < pass.len()
            invariant
                i <= pass@.len(),
                spends_model(pass@) == e0,
                p == not_in(nullifiers@),
                spends_model(out@) == e0.subrange(0, i as int).filter(p),
                self.zone_id == old(self)@.zone_id,
                self.max_size == old(self)@.max_size,
            decreases pass@.len() - i,
        {
            let mut found = false;
            let mut j: usize = 0;
            while j < nullifiers.len()
                invariant
                    i < pass@.len(),
                    j <= nullifiers@.len(),
                    found == exists|k: int| 0 <= k < j && nullifiers@[k] == pass@[i as int].nullifier,
                decreases nullifiers@.len() - j,
            {
                if bytes32_eq(&nullifiers[j].0, &pass[i].nullifier.0) {
                    assert(nullifiers@[j as int] == pass@[i as int].nullifier);
                    found = true;
                }
                j += 1;
            }
            proof {
                lemma_filter_step(e0, i as int, p);
                assert(e0[i as int] == pass@[i as int]@);
            }
            if !found {
                let x = pass[i].clone();
                let ghost before = out@;
                out.push(x);
                assert(spends_model(out@) =~= spends_model(before).push(x@));
            }
            i += 1;
        }
        assert(e0.subrange(0, e0.len() as int) =~= e0);
        self.queue = out;
        proof {
            let e = self@.entries;
            if distinct_nullifiers(e0) {
                e0.filter_lemma(p);
                assert forall|a: int, b: int| 0 <= a < b < e.len() implies e[a].nullifier != e[b].nullifier by {
                    lemma_filter_preserves_distinct(e0, p, a, b);
                }
            }
            e0.lemma_filter_len(p);
        }
    }

    /// Remove every spend for which `keep` returns `false`. Returns the
    /// number of spends removed.
    pub fn retain<F: Fn(&Nullifier) -> bool>(&mut self, keep: F) -> (r: usize)
        requires
            forall|n: &Nullifier| #[trigger] keep.requires((n,)),
        ensures
            exists|d: Seq<bool>| #![trigger select(old(self)@.entries, d)] {
                &&& d.len() == old(self)@.entries.len()
                &&& forall|i: int| 0 <= i < d.len() ==> keep.ensures((&old(self)@.entries[i].nullifier,), #[trigger] d[i])
                &&& final(self)@ == (MempoolModel { entries: select(old(self)@.entries, d), ..old(self)@ })
            },
            r == old(self)@.entries.len() - final(self)@.entries.len(),
            mempool_wf(old(self)@) ==> mempool_wf(final(self)@),
    {
        let ghost e0 = self@.entries;
        let mut pass: Vec<SpendTransaction> = Vec::new();
        std::mem::swap(&mut pass, &mut self.queue);
        let mut out: Vec<SpendTransaction> = Vec::new();
        let ghost mut d: Seq<bool> = Seq::empty();
        let mut i: usize = 0;
        while i < pass.len()
            invariant
                i <= pass@.len(),
                spends_model(pass@) == e0,
                d.len() == i,
                forall|k: int| 0 <= k < i ==> keep.ensures((&e0[k].nullifier,), #[trigger] d[k]),
                forall|n: &Nullifier| #[trigger] keep.requires((n,)),
                spends_model(out@) == select(e0.subrange(0, i as int), d),
                out@.len() <= i,
                self.zone_id == old(self)@.zone_id,
                self.max_size == old(self)@.max_size,
            decreases pass@.len() - i,
        {
            let n = pass[i].nullifier;
            let b = keep(&n);
            proof {
                assert(e0[i as int].nullifier == n);
                let s1 = e0.subrange(0, i + 1);
                let d1 = d.push(b);
                assert(s1.drop_last() =~= e0.subrange(0, i as int));
                assert(d1.drop_last() =~= d);
            }
            if b {
                let x = pass[i].clone();
                let ghost before = out@;
                out.push(x);
                assert(spends_model(out@) =~= spends_model(before).push(x@));
            }
            proof {
                d = d.push(b);
            }
            i += 1;
        }
        assert(e0.subrange(0, e0.len() as int) =~= e0);
        self.queue = out;
        proof {
            lemma_select_sub(e0, d);
            assert(self@ == (MempoolModel { entries: select(e0, d), ..old(self)@ }));
        }
        pass.len() - self.queue.len()
    }
}

/// Inserting spends that are new and fit appends them all, in order.
pub proof fn lemma_insert_all_fresh(m: MempoolModel, ss: Seq<SpendModel>)
    requires
        distinct_nullifiers(m.entries + ss),
        m.entries.len() + ss.len() <= m.max_size,
    ensures
        spec_insert_all(m, ss) == (MempoolModel { entries: m.entries + ss, ..m }, ss.len()),
    decreases ss.len(),
{
    if ss.len() > 0 {
        let t = ss.drop_last();
        assert(distinct_nullifiers(m.entries + t)) by {
            let a = m.entries + t;
            let b = m.entries + ss;
            assert forall|i: int, j: int| 0 <= i < j < a.len() implies a[i].nullifier != a[j].nullifier by {
                assert(a[i] == b[i] && a[j] == b[j]);
            }
        }
        lemma_insert_all_fresh(m, t);
        let e = m.entries + t;
        assert(!has_nullifier(e, ss.last().nullifier)) by {
            let b = m.entries + ss;
            if has_nullifier(e, ss.last().nullifier) {
                let k = choose|k: int| 0 <= k < e.len() && e[k].nullifier == ss.last().nullifier;
                assert(b[k] == e[k]);
                assert(b[b.len() - 1] == ss.last());
            }
        }
        assert(e.push(ss.last()) =~= m.entries + ss);
    }
}

/// Inserting a spend: a pending spend with the same nullifier, or a full
/// pool, refuses it and changes nothing; otherwise it is accepted and
/// queued behind every pending spend.
pub proof fn law_insert_outcome(m: MempoolModel, s: SpendModel)
    ensures
        (exists|i: int| 0 <= i < m.entries.len() && m.entries[i].nullifier == s.nullifier) ==> spec_insert(m, s) == (m, false),
        m.entries.len() >= m.max_size ==> spec_insert(m, s) == (m, false),
        (m.entries.len() < m.max_size && forall|i: int| 0 <= i < m.entries.len() ==> m.entries[i].nullifier != s.nullifier)
            ==> {
            &&& spec_insert(m, s).1
            &&& spec_insert(m, s).0.entries == m.entries.push(s)
            &&& spec_insert(m, s).0.max_size == m.max_size
            &&& spec_insert(m, s).0.zone_id == m.zone_id
        },
{
}

/// The mempool never holds two spends with the same nullifier and never
/// exceeds its capacity, whatever is inserted; and a batch insert accepts
/// at most as many spends as it is given.
pub proof fn law_mempool_no_double_spend(m: MempoolModel, s: SpendModel, ss: Seq<SpendModel>)
    requires
        mempool_wf(m),
    ensures
        mempool_wf(spec_insert(m, s).0),
        mempool_wf(spec_insert_all(m, ss).0),
        spec_insert_all(m, ss).1 <= ss.len(),
        spec_insert_all(m, ss).0.entries.len() == m.entries.len() + spec_insert_all(m, ss).1,
    decreases ss.len(),
{
    if ss.len() > 0 {
        law_mempool_no_double_spend(m, ss.last(), ss.drop_last());
        let m1 = spec_insert_all(m, ss.drop_last()).0;
        law_mempool_no_double_spend(m1, ss.last(), Seq::empty());
    }
    lemma_insert_keeps_wf(m, s);
}

proof fn lemma_insert_keeps_wf(m: MempoolModel, s: SpendModel)
    requires
        mempool_wf(m),
    ensures
        mempool_wf(spec_insert(m, s).0),
{
    let (m2, ok) = spec_insert(m, s);
    if ok {
        let e = m2.entries;
        assert forall|i: int, j: int| 0 <= i < j < e.len() implies e[i].nullifier != e[j].nullifier by {
            if j == e.len() - 1 {
                assert(e[i] == m.entries[i]);
            }
        }
    }
}

/// Spends drained for a proposal that then times out go back to the
/// mempool behind the spends still waiting, in the order they had.
pub proof fn law_drain_then_reinsert(m: MempoolModel, max: usize)
    requires
        mempool_wf(m),
    ensures
        ({
            let k = take_count(m, max);
            let drained = m.entries.subrange(0, k);
            let rest = MempoolModel { entries: m.entries.subrange(k, m.entries.len() as int), ..m };
            spec_insert_all(rest, drained).0.entries == rest.entries + drained
        }),
{
    let k = take_count(m, max);
    let drained = m.entries.subrange(0, k);
    let rest = MempoolModel { entries: m.entries.subrange(k, m.entries.len() as int), ..m };
    let c = rest.entries + drained;
    assert forall|i: int, j: int| 0 <= i < j < c.len() implies c[i].nullifier != c[j].nullifier by {
        let n = m.entries.len() - k;
        let ii = if i < n { i + k } else { i - n };
        let jj = if j < n { j + k } else { j - n };
        assert(c[i] == m.entries[ii]);
        assert(c[j] == m.entries[jj]);
        if ii < jj {
        } else {
            assert(ii != jj);
        }
    }
    lemma_insert_all_fresh(rest, drained);
}

/// Filtering keeps distinct nullifiers distinct.
proof fn lemma_filter_preserves_distinct(s: Seq<SpendModel>, p: spec_fn(SpendModel) -> bool, a: int, b: int)
    requires
        distinct_nullifiers(s),
        0 <= a < b < s.filter(p).len(),
    ensures
        s.filter(p)[a].nullifier != s.filter(p)[b].nullifier,
    decreases s.len(),
{
    reveal(Seq::filter);
    if s.len() > 0 {
        let t = s.drop_last();
        assert(distinct_nullifiers(t)) by {
            assert forall|i: int, j: int| 0 <= i < j < t.len() implies t[i].nullifier != t[j].nullifier by {
                assert(t[i] == s[i] && t[j] == s[j]);
            }
        }
        if p(s.last()) {
            if b == s.filter(p).len() - 1 {
                let x = s.filter(p)[a];
                assert(t.filter(p)[a] == x);
                assert(t.filter(p).contains(x));
                t.lemma_filter_contains_rev(p, x);
                assert(t.contains(x));
                let k = choose|k: int| 0 <= k < t.len() && t[k] == x;
                assert(s[k] == x);
            } else {
                lemma_filter_preserves_distinct(t, p, a, b);
            }
        } else {
            lemma_filter_preserves_distinct(t, p, a, b);
        }
    }
}

/// Selection keeps a sub-sequence: no longer than its input, drawn from it
/// in order, and it keeps distinct nullifiers distinct.
proof fn lemma_select_sub(s: Seq<SpendModel>, d: Seq<bool>)
    requires
        d.len() == s.len(),
    ensures
        select(s, d).len() <= s.len(),
        distinct_nullifiers(s) ==> distinct_nullifiers(select(s, d)),
        forall|i: int| 0 <= i < select(s, d).len() ==> #[trigger] has_nullifier(s, select(s, d)[i].nullifier),
    decreases s.len(),
{
    if s.len() > 0 {
        let t = s.drop_last();
        lemma_select_sub(t, d.drop_last());
        let st = select(t, d.drop_last());
        assert forall|i: int| 0 <= i < select(s, d).len() implies #[trigger] has_nullifier(s, select(s, d)[i].nullifier) by {
            if i < st.len() {
                assert(select(s, d)[i] == st[i]);
                assert(has_nullifier(t, st[i].nullifier));
                let k = choose|k: int| 0 <= k < t.len() && t[k].nullifier == st[i].nullifier;
                assert(s[k] == t[k]);
            } else {
                assert(s[s.len() - 1].nullifier == select(s, d)[i].nullifier);
            }
        }
        if distinct_nullifiers(s) {
            assert(distinct_nullifiers(t)) by {
                assert forall|i: int, j: int| 0 <= i < j < t.len() implies t[i].nullifier != t[j].nullifier by {
                    assert(t[i] == s[i] && t[j] == s[j]);
                }
            }
            if d.last() {
                let r = select(s, d);
                assert forall|a: int, b: int| 0 <= a < b < r.len() implies r[a].nullifier != r[b].nullifier by {
                    if b == r.len() - 1 {
                        assert(r[a] == st[a]);
                        assert(has_nullifier(t, st[a].nullifier));
                        let k = choose|k: int| 0 <= k < t.len() && t[k].nullifier == st[a].nullifier;
                        assert(s[k] == t[k]);
                        assert(k < s.len() - 1);
                    } else {
                        assert(r[a] == st[a] && r[b] == st[b]);
                    }
                }
            }
        }
    }
}

} // verus!
