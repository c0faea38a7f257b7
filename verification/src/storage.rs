//! In-memory per-zone storage: zone heads and nullifier sets.
use std::collections::HashMap;
use vstd::prelude::*;
use crate::bytes::bytes32_eq;
use crate::errors::ServiceError;
use crate::types::{Nullifier, ZoneId};

verus! {

broadcast use vstd::std_specs::hash::group_hash_axioms;

/// Tracks the current head hash for each zone.
///
/// Provides fast in-memory access to zone heads for consensus validation
/// (checking `parent_hash` in block proposals).
pub struct ZoneHead {
    heads: HashMap<ZoneId, [u8; 32]>,
}

impl View for ZoneHead {
    type V = Map<ZoneId, [u8; 32]>;

    closed spec fn view(&self) -> Map<ZoneId, [u8; 32]> {
        self.heads@
    }
}

impl ZoneHead {
    /// No zone has a head yet.
    pub fn new() -> (r: Self)
        ensures
            r@ == Map::<ZoneId, [u8; 32]>::empty(),
    {
        ZoneHead { heads: HashMap::new() }
    }

    /// The head of `zone_id`, if one is recorded.
    pub fn get(&self, zone_id: ZoneId) -> (r: Option<&[u8; 32]>)
        ensures
            match r {
                Some(h) => self@.contains_key(zone_id) && *h == self@[zone_id],
                None => !self@.contains_key(zone_id),
            },
    {
        self.heads.get(&zone_id)
    }

    /// Returns the zone head or a zero hash if no blocks have been finalized.
    pub fn get_or_genesis(&self, zone_id: ZoneId) -> (r: [u8; 32])
        ensures
            self@.contains_key(zone_id) ==> r == self@[zone_id],
            !self@.contains_key(zone_id) ==> forall|i: int| 0 <= i < 32 ==> r@[i] == 0,
    {
        match self.heads.get(&zone_id) {
            Some(h) => *h,
            None => [0u8; 32],
        }
    }

    /// Record `head` as the head of `zone_id`.
    pub fn set(&mut self, zone_id: ZoneId, head: [u8; 32])
        ensures
            final(self)@ == old(self)@.insert(zone_id, head),
    {
        self.heads.insert(zone_id, head);
    }

    /// Whether a head is recorded for `zone_id`.
    pub fn contains(&self, zone_id: ZoneId) -> (r: bool)
        ensures
            r == self@.contains_key(zone_id),
    {
        self.heads.contains_key(&zone_id)
    }

    /// Forget the head of `zone_id`.
    pub fn remove(&mut self, zone_id: ZoneId)
        ensures
            final(self)@ == old(self)@.remove(zone_id),
    {
        self.heads.remove(&zone_id);
    }
}

impl Default for ZoneHead {
    fn default() -> (r: Self)
        ensures
            r@ == Map::<ZoneId, [u8; 32]>::empty(),
    {
        ZoneHead::new()
    }
}

/// A read of a zone head gives back the last head written for that zone,
/// and writing one zone's head leaves the other zones untouched.
pub proof fn law_zone_head_read_after_write(m: Map<ZoneId, [u8; 32]>, z: ZoneId, h: [u8; 32], other: ZoneId)
    requires
        other != z,
    ensures
        m.insert(z, h).contains_key(z),
        m.insert(z, h)[z] == h,
        m.insert(z, h).contains_key(other) == m.contains_key(other),
        m.contains_key(other) ==> m.insert(z, h)[other] == m[other],
        !m.remove(z).contains_key(z),
{
}

/// Per-zone nullifier set: the nullifiers of finalized spends.
pub struct NullifierSet {
    zone_id: ZoneId,
    set: Vec<Nullifier>,
}

/// Model of a [`NullifierSet`].
pub struct NullifierSetModel {
    pub zone_id: ZoneId,
    pub nullifiers: Set<Nullifier>,
}

impl View for NullifierSet {
    type V = NullifierSetModel;

    closed spec fn view(&self) -> NullifierSetModel {
        NullifierSetModel { zone_id: self.zone_id, nullifiers: self.set@.to_set() }
    }
}

impl NullifierSet {
    /// Internal consistency: each nullifier is stored once.
    pub closed spec fn wf(&self) -> bool {
        self.set@.no_duplicates()
    }

    /// Create a purely in-memory nullifier set (no persistence).
    pub fn in_memory(zone_id: ZoneId) -> (r: Self)
        ensures
            r.wf(),
            r@.zone_id == zone_id,
            r@.nullifiers == Set::<Nullifier>::empty(),
    {
        let r = NullifierSet { zone_id, set: Vec::new() };
        assert(r@.nullifiers =~= Set::<Nullifier>::empty());
        r
    }

    /// Whether `n` has been spent.
    pub fn contains(&self, n: &Nullifier) -> (r: bool)
        ensures
            r == self@.nullifiers.contains(*n),
    {
        let mut i: usize = 0;
        while i < self.set.len()
            invariant
                i <= self.set@.len(),
                forall|j: int| 0 <= j < i ==> self.set@[j] != *n,
            decreases self.set@.len() - i,
        {
            if bytes32_eq(&self.set[i].0, &n.0) {
                assert(self.set@[i as int] == *n);
                assert(self.set@.contains(*n));
                return true;
            }
            i += 1;
        }
        false
    }

    /// Insert `n`. Returns `Ok(false)` if it was already present (double
    /// spend); an in-memory set never fails.
    pub fn insert(&mut self, n: Nullifier) -> (r: Result<bool, ServiceError>)
        requires
            old(self).wf(),
        ensures
            final(self).wf(),
            r == Ok::<bool, ServiceError>(!old(self)@.nullifiers.contains(n)),
            final(self)@.nullifiers == old(self)@.nullifiers.insert(n),
            final(self)@.zone_id == old(self)@.zone_id,
    {
        if self.contains(&n) {
            assert(self@.nullifiers.insert(n) =~= self@.nullifiers);
            return Ok(false);
        }
        let ghost before = self.set@;
        self.set.push(n);
        proof {
            assert(self.set@.to_set() =~= before.to_set().insert(n)) by {
                assert forall|x: Nullifier| self.set@.contains(x) <==> (before.contains(x) || x == n) by {
                    if self.set@.contains(x) {
                        let k = choose|k: int| 0 <= k < self.set@.len() && self.set@[k] == x;
                        if k < before.len() {
                            assert(before[k] == x);
                        }
                    }
                    if before.contains(x) {
                        let k = choose|k: int| 0 <= k < before.len() && before[k] == x;
                        assert(self.set@[k] == x);
                    }
                    if x == n {
                        assert(self.set@[before.len() as int] == n);
                    }
                }
            }
            assert forall|a: int, b: int| 0 <= a < self.set@.len() && 0 <= b < self.set@.len() && a != b implies self.set@[a] != self.set@[b] by {
                if a == before.len() {
                    assert(self.set@[b] == before[b]);
                    assert(before.contains(before[b]));
                } else if b == before.len() {
                    assert(self.set@[a] == before[a]);
                    assert(before.contains(before[a]));
                }
            }
        }
        Ok(true)
    }

    /// Number of spent nullifiers.
    pub fn len(&self) -> (r: usize)
        requires
            self.wf(),
        ensures
            r == self@.nullifiers.len(),
    {
        proof { self.set@.unique_seq_to_set(); }
        self.set.len()
    }

    pub fn is_empty(&self) -> (r: bool)
        requires
            self.wf(),
        ensures
            r == (self@.nullifiers.len() == 0),
    {
        proof { self.set@.unique_seq_to_set(); }
        self.set.len() == 0
    }

    pub fn zone_id(&self) -> (r: ZoneId)
        ensures
            r == self@.zone_id,
    {
        self.zone_id
    }
}

} // verus!
