//! A small map keyed by block hash, kept in insertion order.
use vstd::prelude::*;
use crate::bytes::bytes32_eq;

verus! {

/// A map from block hashes to values, in insertion order, each hash at
/// most once.
pub struct BlockMap<V> {
    entries: Vec<([u8; 32], V)>,
}

impl<V> BlockMap<V> {
    /// Each hash occurs once.
    pub closed spec fn wf(&self) -> bool {
        forall|i: int, j: int|
            0 <= i < j < self.entries@.len() ==> #[trigger] self.entries@[i].0 != #[trigger] self.entries@[j].0
    }

    /// Whether `k` is stored.
    closed spec fn has(&self, k: [u8; 32]) -> bool {
        exists|i: int| 0 <= i < self.entries@.len() && #[trigger] self.entries@[i].0 == k
    }

    /// Where `k` is stored.
    closed spec fn index_of(&self, k: [u8; 32]) -> int {
        choose|i: int| 0 <= i < self.entries@.len() && #[trigger] self.entries@[i].0 == k
    }

    /// The stored pairs as a map.
    pub closed spec fn map(&self) -> Map<[u8; 32], V> {
        Map::new(|k: [u8; 32]| self.has(k), |k: [u8; 32]| self.entries@[self.index_of(k)].1)
    }

    /// The number of stored pairs.
    pub closed spec fn count(&self) -> nat {
        self.entries@.len()
    }

    /// The stored hashes, oldest first.
    pub closed spec fn key_seq(&self) -> Seq<[u8; 32]> {
        self.entries@.map_values(|e: ([u8; 32], V)| e.0)
    }

    proof fn lemma_index(&self, i: int)
        requires
            self.wf(),
            0 <= i < self.entries@.len(),
        ensures
            self.map().contains_key(self.entries@[i].0),
            self.index_of(self.entries@[i].0) == i,
            self.map()[self.entries@[i].0] == self.entries@[i].1,
    {
        let k = self.entries@[i].0;
        assert(self.has(k));
        let j = self.index_of(k);
        assert(self.entries@[j].0 == k);
        if j != i {
            if j < i {
                assert(self.entries@[j].0 != self.entries@[i].0);
            } else {
                assert(self.entries@[i].0 != self.entries@[j].0);
            }
        }
    }

    /// The stored hashes are those of the map, each once.
    pub proof fn lemma_keys(&self)
        requires
            self.wf(),
        ensures
            self.key_seq().no_duplicates(),
            forall|k: [u8; 32]| #[trigger] self.map().contains_key(k) <==> self.key_seq().contains(k),
    {
        let ks = self.key_seq();
        assert forall|k: [u8; 32]| #[trigger] self.map().contains_key(k) <==> ks.contains(k) by {
            if self.map().contains_key(k) {
                let i = self.index_of(k);
                assert(ks[i] == k);
            }
            if ks.contains(k) {
                let i = choose|i: int| 0 <= i < ks.len() && ks[i] == k;
                assert(self.entries@[i].0 == k);
            }
        }
    }

    pub fn new() -> (r: Self)
        ensures
            r.wf(),
            r.map() == Map::<[u8; 32], V>::empty(),
            r.count() == 0,
    {
        let r = BlockMap { entries: Vec::new() };
        assert(r.map() =~= Map::<[u8; 32], V>::empty());
        r
    }

    /// Position of `k`, if stored.
    fn position(&self, k: &[u8; 32]) -> (r: Option<usize>)
        requires
            self.wf(),
        ensures
            match r {
                Some(i) => i < self.entries@.len() && self.entries@[i as int].0 == *k,
                None => !self.map().contains_key(*k),
            },
    {
        let mut i: usize = 0;
        while i < self.entries.len()
            invariant
                i <= self.entries@.len(),
                forall|j: int| 0 <= j < i ==> self.entries@[j].0 != *k,
            decreases self.entries@.len() - i,
        {
            if bytes32_eq(&self.entries[i].0, k) {
                return Some(i);
            }
            i += 1;
        }
        None
    }

    /// The number of stored pairs.
    pub fn len(&self) -> (r: usize)
        ensures
            r == self.count(),
    {
        self.entries.len()
    }

    /// Whether `k` is stored.
    pub fn contains_key(&self, k: &[u8; 32]) -> (r: bool)
        requires
            self.wf(),
        ensures
            r == self.map().contains_key(*k),
    {
        match self.position(k) {
            Some(i) => {
                proof { self.lemma_index(i as int); }
                true
            },
            None => false,
        }
    }

    /// The value stored for `k`.
    pub fn get(&self, k: &[u8; 32]) -> (r: Option<&V>)
        requires
            self.wf(),
        ensures
            match r {
                Some(v) => self.map().contains_key(*k) && *v == self.map()[*k],
                None => !self.map().contains_key(*k),
            },
    {
        match self.position(k) {
            Some(i) => {
                proof { self.lemma_index(i as int); }
                Some(&self.entries[i].1)
            },
            None => None,
        }
    }

    /// Store `v` for `k`, replacing an earlier value in place.
    pub fn insert(&mut self, k: [u8; 32], v: V)
        requires
            old(self).wf(),
        ensures
            final(self).wf(),
            final(self).map() == old(self).map().insert(k, v),
            final(self).count() == old(self).count() + if old(self).map().contains_key(k) { 0int } else { 1 },
    {
        match self.position(&k) {
            Some(i) => {
                proof { self.lemma_index(i as int); }
                let ghost before = *self;
                self.entries.set(i, (k, v));
                proof {
                    assert forall|x: [u8; 32]| #[trigger] self.map().contains_key(x) == before.map().insert(k, v).contains_key(x) by {
                        if before.has(x) {
                            let j = before.index_of(x);
                            assert(self.entries@[j].0 == x);
                        }
                        if self.has(x) {
                            let j = self.index_of(x);
                            assert(before.entries@[j].0 == x);
                        }
                    }
                    assert forall|x: [u8; 32]| #[trigger] self.map().contains_key(x) implies self.map()[x] == before.map().insert(k, v)[x] by {
                        let j = self.index_of(x);
                        self.lemma_index(j);
                        if x != k {
                            before.lemma_index(j);
                        }
                    }
                    assert(self.map() =~= before.map().insert(k, v));
                }
            },
            None => {
                let ghost before = *self;
                self.entries.push((k, v));
                proof {
                    let n = before.entries@.len() as int;
                    assert forall|i: int, j: int| 0 <= i < j < self.entries@.len() implies #[trigger] self.entries@[i].0 != #[trigger] self.entries@[j].0 by {
                        if j == n {
                            assert(before.entries@[i].0 != k) by {
                                if before.entries@[i].0 == k {
                                    before.lemma_index(i);
                                }
                            }
                        }
                    }
                    assert forall|x: [u8; 32]| #[trigger] self.map().contains_key(x) == before.map().insert(k, v).contains_key(x) by {
                        if before.has(x) {
                            let j = before.index_of(x);
                            assert(self.entries@[j].0 == x);
                        }
                        if self.has(x) && x != k {
                            let j = self.index_of(x);
                            assert(before.entries@[j].0 == x);
                        }
                        if x == k {
                            assert(self.entries@[n].0 == k);
                        }
                    }
                    assert forall|x: [u8; 32]| #[trigger] self.map().contains_key(x) implies self.map()[x] == before.map().insert(k, v)[x] by {
                        let j = self.index_of(x);
                        self.lemma_index(j);
                        if j < n {
                            before.lemma_index(j);
                        }
                    }
                    assert(self.map() =~= before.map().insert(k, v));
                }
            },
        }
    }

    /// Remove and return the value stored for `k`.
    pub fn remove(&mut self, k: &[u8; 32]) -> (r: Option<V>)
        requires
            old(self).wf(),
        ensures
            final(self).wf(),
            final(self).map() == old(self).map().remove(*k),
            match r {
                Some(v) => old(self).map().contains_key(*k) && v == old(self).map()[*k],
                None => !old(self).map().contains_key(*k),
            },
            final(self).count() == old(self).count() - if old(self).map().contains_key(*k) { 1int } else { 0 },
    {
        match self.position(k) {
            Some(i) => {
                proof { self.lemma_index(i as int); }
                let ghost before = *self;
                let (_, v) = self.entries.remove(i);
                proof {
                    let ii = i as int;
                    assert(self.entries@ == before.entries@.remove(ii));
                    assert forall|a: int, b: int| 0 <= a < b < self.entries@.len() implies #[trigger] self.entries@[a].0 != #[trigger] self.entries@[b].0 by {
                        let a0 = if a < ii { a } else { a + 1 };
                        let b0 = if b < ii { b } else { b + 1 };
                        assert(self.entries@[a] == before.entries@[a0]);
                        assert(self.entries@[b] == before.entries@[b0]);
                    }
                    assert forall|x: [u8; 32]| #[trigger] self.map().contains_key(x) == before.map().remove(*k).contains_key(x) by {
                        if before.has(x) && x != *k {
                            let j = before.index_of(x);
                            assert(j != ii);
                            let j2 = if j < ii { j } else { j - 1 };
                            assert(self.entries@[j2].0 == x);
                        }
                        if self.has(x) {
                            let j = self.index_of(x);
                            let j0 = if j < ii { j } else { j + 1 };
                            assert(before.entries@[j0].0 == x);
                            if x == *k {
                                before.lemma_index(j0);
                            }
                        }
                    }
                    assert forall|x: [u8; 32]| #[trigger] self.map().contains_key(x) implies self.map()[x] == before.map().remove(*k)[x] by {
                        let j = self.index_of(x);
                        self.lemma_index(j);
                        let j0 = if j < ii { j } else { j + 1 };
                        assert(before.entries@[j0] == self.entries@[j]);
                        before.lemma_index(j0);
                    }
                    assert(self.map() =~= before.map().remove(*k));
                }
                Some(v)
            },
            None => {
                proof { assert(self.map() =~= self.map().remove(*k)); }
                None
            },
        }
    }

    /// The stored hashes, oldest first.
    pub fn keys(&self) -> (r: Vec<[u8; 32]>)
        ensures
            r@ == self.key_seq(),
    {
        let mut r: Vec<[u8; 32]> = Vec::new();
        let mut i: usize = 0;
        while i < self.entries.len()
            invariant
                i <= self.entries@.len(),
                r@ == self.key_seq().subrange(0, i as int),
            decreases self.entries@.len() - i,
        {
            r.push(self.entries[i].0);
            i += 1;
            proof {
                assert(r@ =~= self.key_seq().subrange(0, i as int));
            }
        }
        proof {
            assert(self.key_seq().subrange(0, i as int) =~= self.key_seq());
        }
        r
    }
}

} // verus!
