//! The per-zone mempools of a node, keyed by zone.
use std::collections::HashMap;
use vstd::prelude::*;
use crate::mempool::{
    mempool_wf, select, spec_insert, spec_insert_all, take_count, not_in, Mempool, MempoolModel,
};
use crate::types::{spends_model, Nullifier, SpendTransaction, ZoneId};

verus! {

broadcast use vstd::std_specs::hash::group_hash_axioms;

/// The per-zone mempools, keyed by zone. Operations on a zone without a
/// mempool do nothing and report nothing inserted or drained.
pub struct SharedMempool {
    zones: HashMap<ZoneId, Mempool>,
    order: Vec<ZoneId>,
}

impl View for SharedMempool {
    type V = Map<ZoneId, MempoolModel>;

    closed spec fn view(&self) -> Map<ZoneId, MempoolModel> {
        self.zones@.map_values(|m: Mempool| m@)
    }
}

impl SharedMempool {
    /// Internal consistency: `order` lists each zone of the map once, and
    /// each zone's mempool is well formed.
    pub closed spec fn wf(&self) -> bool {
        &&& self.order@.no_duplicates()
        &&& forall|z: ZoneId|
            #![trigger self.zones@.contains_key(z)]
            #![trigger self.order@.contains(z)]
            self.order@.contains(z) <==> self.zones@.contains_key(z)
        &&& forall|z: ZoneId| #[trigger] self.zones@.contains_key(z) ==> mempool_wf(self.zones@[z]@)
    }

    pub fn new() -> (r: Self)
        ensures
            r.wf(),
            r@ == Map::<ZoneId, MempoolModel>::empty(),
    {
        let r = SharedMempool { zones: HashMap::new(), order: Vec::new() };
        assert(r@ =~= Map::<ZoneId, MempoolModel>::empty());
        r
    }

    /// Create an empty mempool for `zone_id` holding at most `max_size`
    /// spends, unless the zone already has one.
    pub fn add_zone(&mut self, zone_id: ZoneId, max_size: usize)
        requires
            old(self).wf(),
        ensures
            final(self).wf(),
            final(self)@ == if old(self)@.contains_key(zone_id) {
                old(self)@
            } else {
                old(self)@.insert(zone_id, MempoolModel { zone_id, entries: Seq::empty(), max_size })
            },
    {
        if self.zones.contains_key(&zone_id) {
            return;
        }
        let ghost o = self.order@;
        self.zones.insert(zone_id, Mempool::new(zone_id, max_size));
        self.order.push(zone_id);
        proof {
            assert(self.order@ == o.push(zone_id));
            assert forall|z: ZoneId| self.order@.contains(z) <==> self.zones@.contains_key(z) by {
                if self.order@.contains(z) && z != zone_id {
                    let k = choose|k: int| 0 <= k < self.order@.len() && #[trigger] self.order@[k] == z;
                    assert(o[k] == z);
                }
                if o.contains(z) {
                    let k = choose|k: int| 0 <= k < o.len() && #[trigger] o[k] == z;
                    assert(self.order@[k] == z);
                }
                if z == zone_id {
                    assert(self.order@[o.len() as int] == z);
                }
            }
            assert(self@ =~= old(self)@.insert(
                zone_id,
                MempoolModel { zone_id, entries: Seq::empty(), max_size },
            ));
        }
    }

    /// Drop the mempool of `zone_id` with everything in it.
    pub fn remove_zone(&mut self, zone_id: ZoneId)
        requires
            old(self).wf(),
        ensures
            final(self).wf(),
            final(self)@ == old(self)@.remove(zone_id),
    {
        let ghost o = self.order@;
        self.zones.remove(&zone_id);
        let mut kept: Vec<ZoneId> = Vec::new();
        let mut i: usize = 0;
        while i < self.order.len()
            invariant
                self.order@ == o,
                o.no_duplicates(),
                i <= o.len(),
                kept@.no_duplicates(),
                forall|x: ZoneId| #[trigger] kept@.contains(x) <==> (o.subrange(0, i as int).contains(x) && x != zone_id),
            decreases o.len() - i,
        {
            let z = self.order[i];
            proof {
                assert(o.subrange(0, i + 1) =~= o.subrange(0, i as int).push(z));
                if o.subrange(0, i as int).contains(z) {
                    let k = choose|k: int| 0 <= k < i && o.subrange(0, i as int)[k] == z;
                    assert(o[k] == o[i as int]);
                }
            }
            if z != zone_id {
                let ghost before = kept@;
                kept.push(z);
                proof {
                    assert forall|x: ZoneId| #[trigger] kept@.contains(x) <==> (o.subrange(0, i + 1).contains(x) && x != zone_id) by {
                        if kept@.contains(x) && x != z {
                            let k = choose|k: int| 0 <= k < kept@.len() && #[trigger] kept@[k] == x;
                            assert(before[k] == x);
                        }
                        if before.contains(x) {
                            let k = choose|k: int| 0 <= k < before.len() && #[trigger] before[k] == x;
                            assert(kept@[k] == x);
                        }
                        if x == z {
                            assert(kept@[before.len() as int] == x);
                            assert(o.subrange(0, i + 1)[i as int] == x);
                        }
                        if o.subrange(0, i + 1).contains(x) && x != z {
                            let k = choose|k: int| 0 <= k < i + 1 && #[trigger] o.subrange(0, i + 1)[k] == x;
                            assert(o.subrange(0, i as int)[k] == x);
                        }
                        if o.subrange(0, i as int).contains(x) {
                            let k = choose|k: int| 0 <= k < i && #[trigger] o.subrange(0, i as int)[k] == x;
                            assert(o.subrange(0, i + 1)[k] == x);
                        }
                    }
                    assert(!before.contains(z));
                }
            } else {
                proof {
                    assert forall|x: ZoneId| #[trigger] kept@.contains(x) <==> (o.subrange(0, i + 1).contains(x) && x != zone_id) by {
                        if o.subrange(0, i + 1).contains(x) && x != z {
                            let k = choose|k: int| 0 <= k < i + 1 && #[trigger] o.subrange(0, i + 1)[k] == x;
                            assert(o.subrange(0, i as int)[k] == x);
                        }
                        if o.subrange(0, i as int).contains(x) {
                            let k = choose|k: int| 0 <= k < i && #[trigger] o.subrange(0, i as int)[k] == x;
                            assert(o.subrange(0, i + 1)[k] == x);
                        }
                    }
                }
            }
            i += 1;
        }
        proof {
            assert(o.subrange(0, o.len() as int) =~= o);
            assert(self@ =~= old(self)@.remove(zone_id));
        }
        self.order = kept;
    }

    /// Insert a spend into the mempool of `zone_id`; `false` when the zone
    /// has no mempool or its mempool refuses the spend.
    pub fn insert(&mut self, zone_id: ZoneId, tx: SpendTransaction) -> (r: bool)
        requires
            old(self).wf(),
        ensures
            final(self).wf(),
            old(self)@.contains_key(zone_id) ==> {
                &&& final(self)@ == old(self)@.insert(zone_id, spec_insert(old(self)@[zone_id], tx@).0)
                &&& r == spec_insert(old(self)@[zone_id], tx@).1
            },
            !old(self)@.contains_key(zone_id) ==> final(self)@ == old(self)@ && !r,
    {
        match self.zones.remove(&zone_id) {
            Some(mut mp) => {
                let r = mp.insert(tx);
                self.zones.insert(zone_id, mp);
                proof {
                    assert(self@ =~= old(self)@.insert(zone_id, spec_insert(old(self)@[zone_id], tx@).0));
                }
                r
            },
            None => false,
        }
    }

    /// Insert a batch of spends into the mempool of `zone_id`, one after
    /// the other; returns how many were accepted.
    pub fn insert_batch(&mut self, zone_id: ZoneId, txs: Vec<SpendTransaction>) -> (r: usize)
        requires
            old(self).wf(),
        ensures
            final(self).wf(),
            old(self)@.contains_key(zone_id) ==> {
                &&& final(self)@ == old(self)@.insert(
                    zone_id,
                    spec_insert_all(old(self)@[zone_id], spends_model(txs@)).0,
                )
                &&& r == spec_insert_all(old(self)@[zone_id], spends_model(txs@)).1
            },
            !old(self)@.contains_key(zone_id) ==> final(self)@ == old(self)@ && r == 0,
    {
        match self.zones.remove(&zone_id) {
            Some(mut mp) => {
                let r = mp.insert_batch(txs);
                self.zones.insert(zone_id, mp);
                proof {
                    assert(self@ =~= old(self)@.insert(
                        zone_id,
                        spec_insert_all(old(self)@[zone_id], spends_model(txs@)).0,
                    ));
                }
                r
            },
            None => 0,
        }
    }

    /// Drain up to `max` spends of `zone_id`, oldest first.
    pub fn drain_proposal(&mut self, zone_id: ZoneId, max: usize) -> (r: Vec<SpendTransaction>)
        requires
            old(self).wf(),
        ensures
            final(self).wf(),
            old(self)@.contains_key(zone_id) ==> {
                let m = old(self)@[zone_id];
                &&& spends_model(r@) == m.entries.subrange(0, take_count(m, max))
                &&& final(self)@ == old(self)@.insert(
                    zone_id,
                    MempoolModel {
                        entries: m.entries.subrange(take_count(m, max), m.entries.len() as int),
                        ..m
                    },
                )
            },
            !old(self)@.contains_key(zone_id) ==> final(self)@ == old(self)@ && r@.len() == 0,
    {
        match self.zones.remove(&zone_id) {
            Some(mut mp) => {
                let r = mp.drain_proposal(max);
                self.zones.insert(zone_id, mp);
                proof {
                    let m = old(self)@[zone_id];
                                        assert(self@ =~= old(self)@.insert(
                        zone_id,
                        MempoolModel {
                            entries: m.entries.subrange(take_count(m, max), m.entries.len() as int),
                            ..m
                        },
                    ));
                }
                r
            },
            None => Vec::new(),
        }
    }

    /// Copies of up to `max` pending spends of `zone_id`, oldest first.
    pub fn peek(&self, zone_id: ZoneId, max: usize) -> (r: Vec<SpendTransaction>)
        ensures
            self@.contains_key(zone_id) ==> spends_model(r@) == self@[zone_id].entries.subrange(
                0,
                take_count(self@[zone_id], max),
            ),
            !self@.contains_key(zone_id) ==> r@.len() == 0,
    {
        match self.zones.get(&zone_id) {
            Some(mp) => mp.peek(max),
            None => Vec::new(),
        }
    }

    /// Put back spends of a proposal that never finalized.
    pub fn reinsert_batch(&mut self, zone_id: ZoneId, txs: Vec<SpendTransaction>)
        requires
            old(self).wf(),
        ensures
            final(self).wf(),
            old(self)@.contains_key(zone_id) ==> final(self)@ == old(self)@.insert(
                zone_id,
                spec_insert_all(old(self)@[zone_id], spends_model(txs@)).0,
            ),
            !old(self)@.contains_key(zone_id) ==> final(self)@ == old(self)@,
    {
        let _ = self.insert_batch(zone_id, txs);
    }

    /// Drop the spends of `zone_id` whose nullifiers were finalized.
    pub fn remove_nullifiers(&mut self, zone_id: ZoneId, nullifiers: &[Nullifier])
        requires
            old(self).wf(),
        ensures
            final(self).wf(),
            old(self)@.contains_key(zone_id) ==> final(self)@ == old(self)@.insert(
                zone_id,
                MempoolModel {
                    entries: old(self)@[zone_id].entries.filter(not_in(nullifiers@)),
                    ..old(self)@[zone_id]
                },
            ),
            !old(self)@.contains_key(zone_id) ==> final(self)@ == old(self)@,
    {
        match self.zones.remove(&zone_id) {
            Some(mut mp) => {
                mp.remove_nullifiers(nullifiers);
                self.zones.insert(zone_id, mp);
                proof {
                    assert(self@ =~= old(self)@.insert(
                        zone_id,
                        MempoolModel {
                            entries: old(self)@[zone_id].entries.filter(not_in(nullifiers@)),
                            ..old(self)@[zone_id]
                        },
                    ));
                }
            },
            None => {},
        }
    }

    /// Keep only the spends of `zone_id` whose nullifier `keep` accepts;
    /// returns how many were removed.
    pub fn retain<F: Fn(&Nullifier) -> bool>(&mut self, zone_id: ZoneId, keep: F) -> (r: usize)
        requires
            old(self).wf(),
            forall|n: &Nullifier| #[trigger] keep.requires((n,)),
        ensures
            final(self).wf(),
            old(self)@.contains_key(zone_id) ==> exists|d: Seq<bool>| #![trigger select(old(self)@[zone_id].entries, d)] {
                let m = old(self)@[zone_id];
                &&& d.len() == m.entries.len()
                &&& forall|i: int| 0 <= i < d.len() ==> keep.ensures((&m.entries[i].nullifier,), #[trigger] d[i])
                &&& final(self)@ == old(self)@.insert(zone_id, MempoolModel { entries: select(m.entries, d), ..m })
                &&& r == m.entries.len() - select(m.entries, d).len()
            },
            !old(self)@.contains_key(zone_id) ==> final(self)@ == old(self)@ && r == 0,
    {
        match self.zones.remove(&zone_id) {
            Some(mut mp) => {
                let ghost m0 = mp@;
                let r = mp.retain(keep);
                let ghost m2 = mp@;
                self.zones.insert(zone_id, mp);
                proof {
                    let d = choose|d: Seq<bool>| #![trigger select(m0.entries, d)] {
                        &&& d.len() == m0.entries.len()
                        &&& forall|i: int| 0 <= i < d.len() ==> keep.ensures((&m0.entries[i].nullifier,), #[trigger] d[i])
                        &&& m2 == (MempoolModel { entries: select(m0.entries, d), ..m0 })
                    };
                    assert(self@ =~= old(self)@.insert(zone_id, m2));
                    assert(m0 == old(self)@[zone_id]);
                    assert(m2 == (MempoolModel { entries: select(m0.entries, d), ..m0 }));
                }
                r
            },
            None => 0,
        }
    }

    /// Number of pending spends of `zone_id` (zero without a mempool).
    pub fn len(&self, zone_id: ZoneId) -> (r: usize)
        ensures
            r == if self@.contains_key(zone_id) { self@[zone_id].entries.len() as int } else { 0 },
    {
        match self.zones.get(&zone_id) {
            Some(mp) => mp.len(),
            None => 0,
        }
    }

    /// The number of pending spends of every zone with a mempool.
    pub fn zone_sizes(&self) -> (r: HashMap<u32, usize>)
        requires
            self.wf(),
        ensures
            r@.dom() == self@.dom(),
            forall|z: ZoneId| #[trigger] r@.contains_key(z) ==> r@[z] == self@[z].entries.len(),
    {
        let mut sizes: HashMap<u32, usize> = HashMap::new();
        let mut i: usize = 0;
        while i < self.order.len()
            invariant
                self.wf(),
                i <= self.order@.len(),
                forall|z: ZoneId| #[trigger] sizes@.contains_key(z) <==> self.order@.subrange(0, i as int).contains(z),
                forall|z: ZoneId| #[trigger] sizes@.contains_key(z) ==> sizes@[z] == self@[z].entries.len(),
            decreases self.order@.len() - i,
        {
            let z = self.order[i];
            proof {
                assert(self.order@.contains(z));
            }
            let n = self.len(z);
            sizes.insert(z, n);
            proof {
                let o = self.order@;
                assert forall|x: ZoneId| #[trigger] sizes@.contains_key(x) <==> o.subrange(0, i + 1).contains(x) by {
                    if o.subrange(0, i + 1).contains(x) && x != z {
                        let k = choose|k: int| 0 <= k < i + 1 && #[trigger] o.subrange(0, i + 1)[k] == x;
                        assert(o.subrange(0, i as int)[k] == x);
                    }
                    if o.subrange(0, i as int).contains(x) {
                        let k = choose|k: int| 0 <= k < i && #[trigger] o.subrange(0, i as int)[k] == x;
                        assert(o.subrange(0, i + 1)[k] == x);
                    }
                    if x == z {
                        assert(o.subrange(0, i + 1)[i as int] == x);
                    }
                }
            }
            i += 1;
        }
        proof {
            assert(self.order@.subrange(0, self.order@.len() as int) =~= self.order@);
            assert(sizes@.dom() =~= self@.dom());
        }
        sizes
    }
}

/// The mempools after inserting each spend of `s` into its zone's
/// mempool, in order (a spend for a zone without a mempool is dropped).
pub open spec fn spec_ingest(m: Map<ZoneId, MempoolModel>, s: Seq<(ZoneId, crate::types::SpendModel)>) -> Map<ZoneId, MempoolModel>
    decreases s.len(),
{
    if s.len() == 0 {
        m
    } else {
        let m1 = spec_ingest(m, s.drop_last());
        let (z, tx) = s.last();
        if m1.contains_key(z) {
            m1.insert(z, spec_insert(m1[z], tx).0)
        } else {
            m1
        }
    }
}

/// The models of a list of zone-tagged spends.
pub open spec fn tagged_spends(v: Seq<(ZoneId, SpendTransaction)>) -> Seq<(ZoneId, crate::types::SpendModel)> {
    v.map_values(|e: (ZoneId, SpendTransaction)| (e.0, e.1@))
}

impl SharedMempool {
    /// Insert each spend into the mempool of its zone, in order.
    pub fn ingest(&mut self, spends: Vec<(ZoneId, SpendTransaction)>)
        requires
            old(self).wf(),
        ensures
            final(self).wf(),
            final(self)@ == spec_ingest(old(self)@, tagged_spends(spends@)),
    {
        let ghost all = tagged_spends(spends@);
        let mut rest = spends;
        let n: usize = rest.len();
        let mut rev: Vec<(ZoneId, SpendTransaction)> = Vec::new();
        while rest.len() > 0
            invariant
                rev@.len() + rest@.len() == all.len(),
                all.len() == n,
                tagged_spends(rest@) == all.subrange(0, rest@.len() as int),
                forall|k: int| 0 <= k < rev@.len() ==> (#[trigger] rev@[k]).0 == all[all.len() - 1 - k].0
                    && rev@[k].1@ == all[all.len() - 1 - k].1,
            decreases rest@.len(),
        {
            let ghost before = rest@;
            let e = rest.pop().unwrap();
            proof {
                assert(tagged_spends(rest@) =~= tagged_spends(before).subrange(0, rest@.len() as int));
                assert(tagged_spends(before)[rest@.len() as int] == (e.0, e.1@));
            }
            rev.push(e);
        }
        let mut done: usize = 0;
        while rev.len() > 0
            invariant
                self.wf(),
                rev@.len() + done == all.len(),
                all.len() == n,
                forall|k: int| 0 <= k < rev@.len() ==> (#[trigger] rev@[k]).0 == all[all.len() - 1 - k].0
                    && rev@[k].1@ == all[all.len() - 1 - k].1,
                self@ == spec_ingest(old(self)@, all.subrange(0, done as int)),
            decreases rev@.len(),
        {
            let (z, tx) = rev.pop().unwrap();
            proof {
                assert(all.subrange(0, done + 1).drop_last() =~= all.subrange(0, done as int));
                assert(all.subrange(0, done + 1).last() == (z, tx@));
            }
            let _ = self.insert(z, tx);
            done += 1;
        }
        assert(all.subrange(0, done as int) =~= all);
    }
}

} // verus!
