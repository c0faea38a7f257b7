//! Deterministic committee sampling for a zone in an epoch.
use rand::Rng;
use rand::SeedableRng;
use vstd::prelude::*;
use crate::bytes::bytes32_eq;
use crate::hashing::{push_bytes, push_u32_be, sha256, sha256_spec, u32_be};
use crate::types::{validator_ids, ValidatorInfo, ValidatorModel, ZoneId};

verus! {

#[verifier::external_type_specification]
#[verifier::external_body]
pub struct ExChaCha20Rng(rand_chacha::ChaCha20Rng);

/// The index that `rand::Rng::gen_range(lo..hi)`, drawn as a `u64`, gives
/// on a ChaCha20 generator built by `from_seed(seed)` after the ranges
/// `earlier` were drawn from it, in that order.
pub uninterp spec fn chacha_index(seed: Seq<u8>, earlier: Seq<(usize, usize)>, lo: usize, hi: usize) -> usize;

/// The generator of committee positions: a ChaCha20 stream, with the seed
/// it was built from and the ranges drawn from it so far.
struct CommitteeRng {
    rng: rand_chacha::ChaCha20Rng,
    seed: Ghost<Seq<u8>>,
    draws: Ghost<Seq<(usize, usize)>>,
}

impl CommitteeRng {
    /// Calls `rand_chacha::ChaCha20Rng::from_seed`: a fresh generator that
    /// has drawn nothing yet.
    #[verifier::external_body]
    fn from_seed(seed: [u8; 32]) -> (r: Self)
        ensures
            r.seed@ == seed@,
            r.draws@ == Seq::<(usize, usize)>::empty(),
    {
        CommitteeRng { rng: rand_chacha::ChaCha20Rng::from_seed(seed), seed: Ghost(seed@), draws: Ghost(Seq::empty()) }
    }

    /// Calls `rand::Rng::gen_range` on `lo..hi` as 64-bit integers, so that
    /// the draw does not depend on the pointer width. The index lies in that
    /// half-open range (an empty one panics, which `requires` excludes), and
    /// it is a function of the seed and of the ranges drawn before: ChaCha20
    /// is a deterministic stream and `gen_range` reads it in a fixed way.
    #[verifier::external_body]
    fn gen_index(&mut self, lo: usize, hi: usize) -> (r: usize)
        requires
            lo < hi,
        ensures
            lo <= r < hi,
            r == chacha_index(old(self).seed@, old(self).draws@, lo, hi),
            final(self).seed@ == old(self).seed@,
            final(self).draws@ == old(self).draws@.push((lo, hi)),
    {
        self.rng.gen_range(lo as u64..hi as u64) as usize
    }
}

/// The positions after `steps` swaps of the partial Fisher-Yates shuffle of
/// `0..n`, with the ranges drawn for them: swap `i` exchanges position `i`
/// with the index drawn from `i..n`.
pub open spec fn shuffle_after(seed: Seq<u8>, n: usize, steps: nat) -> (Seq<usize>, Seq<(usize, usize)>)
    decreases steps,
{
    if steps == 0 {
        (Seq::new(n as nat, |t: int| t as usize), Seq::empty())
    } else {
        let (p, d) = shuffle_after(seed, n, (steps - 1) as nat);
        let i = (steps - 1) as usize;
        let j = chacha_index(seed, d, i, n);
        (p.update(i as int, p[j as int]).update(j as int, p[i as int]), d.push((i, n)))
    }
}

/// The seed of a zone's draw: SHA-256 of the epoch seed followed by the
/// big-endian zone id.
pub open spec fn zone_seed(randomness_seed: Seq<u8>, zone_id: ZoneId) -> Seq<u8> {
    sha256_spec(randomness_seed + u32_be(zone_id))
}

/// The committee of `zone_id`: the first `min(committee_size, n)`
/// positions of the shuffle seeded by [`zone_seed`], read from the
/// validator list.
pub open spec fn sampled_committee(
    randomness_seed: Seq<u8>,
    zone_id: ZoneId,
    validators: Seq<ValidatorModel>,
    committee_size: usize,
) -> Seq<ValidatorModel> {
    let n = validators.len();
    let k = if committee_size < n { committee_size as nat } else { n };
    if n == 0 {
        Seq::empty()
    } else {
        let p = shuffle_after(zone_seed(randomness_seed, zone_id), n as usize, k).0;
        Seq::new(k, |t: int| validators[p[t] as int])
    }
}

/// Every validator that samples a zone's committee from the same epoch
/// seed, validator list and committee size gets the same committee, and
/// the committee is the shuffle of that zone's own seed.
pub proof fn law_committee_deterministic(
    a: Seq<ValidatorModel>,
    b: Seq<ValidatorModel>,
    randomness_seed: Seq<u8>,
    zone_id: ZoneId,
    validators: Seq<ValidatorModel>,
    committee_size: usize,
)
    requires
        a == sampled_committee(randomness_seed, zone_id, validators, committee_size),
        b == sampled_committee(randomness_seed, zone_id, validators, committee_size),
    ensures
        a == b,
{
}

/// Whether `c` is a committee drawn from `validators`: each member is a
/// distinct position of the validator list.
pub open spec fn drawn_committee(c: Seq<ValidatorModel>, validators: Seq<ValidatorModel>) -> bool {
    exists|idx: Seq<int>| #![trigger idx.len()] {
        &&& idx.len() == c.len()
        &&& idx.no_duplicates()
        &&& forall|t: int| 0 <= t < idx.len() ==> 0 <= #[trigger] idx[t] < validators.len() && c[t] == validators[idx[t]]
    }
}

/// Deterministic committee sampling for a zone in an epoch.
///
/// Uses a Fisher-Yates partial shuffle seeded by
/// `SHA-256(randomness_seed || zone_id)`. The committee has
/// `min(committee_size, validators.len())` members, each a different
/// validator of the pool.
pub fn sample_committee(
    randomness_seed: &[u8; 32],
    zone_id: ZoneId,
    validators: &[ValidatorInfo],
    committee_size: usize,
) -> (r: Vec<ValidatorInfo>)
    ensures
        r@.len() == if committee_size < validators@.len() { committee_size as int } else { validators@.len() as int },
        drawn_committee(crate::types::validators_model(r@), crate::types::validators_model(validators@)),
        crate::types::validators_model(r@) == sampled_committee(
            randomness_seed@,
            zone_id,
            crate::types::validators_model(validators@),
            committee_size,
        ),
{
    let ghost vm = crate::types::validators_model(validators@);
    if validators.len() == 0 {
        let r: Vec<ValidatorInfo> = Vec::new();
        proof {
            let idx: Seq<int> = Seq::empty();
            assert(idx.len() == crate::types::validators_model(r@).len());
        }
        return r;
    }
    let mut seed_input: Vec<u8> = Vec::new();
    push_bytes(&mut seed_input, randomness_seed.as_slice());
    push_u32_be(&mut seed_input, zone_id);
    let seed = sha256(seed_input.as_slice());
    proof {
        assert(seed_input@ =~= randomness_seed@ + u32_be(zone_id));
    }
    let mut rng = CommitteeRng::from_seed(seed);

    let n = validators.len();
    let mut indices: Vec<usize> = Vec::new();
    let mut i: usize = 0;
    while i < n
        invariant
            n == validators@.len(),
            i <= n,
            indices@.len() == i,
            forall|t: int| 0 <= t < i ==> indices@[t] == t,
        decreases n - i,
    {
        indices.push(i);
        i += 1;
    }
    assert(indices@.no_duplicates());
    assert(indices@ =~= shuffle_after(rng.seed@, n, 0).0);
    let k = if committee_size < n { committee_size } else { n };
    let mut i: usize = 0;
    while i < k
        invariant
            k <= n,
            n == validators@.len(),
            i <= k,
            indices@.len() == n,
            indices@.no_duplicates(),
            forall|t: int| 0 <= t < n ==> #[trigger] indices@[t] < n,
            (indices@, rng.draws@) == shuffle_after(rng.seed@, n, i as nat),
            rng.seed@ == zone_seed(randomness_seed@, zone_id),
        decreases k - i,
    {
        let j = rng.gen_index(i, n);
        let a = indices[i];
        let b = indices[j];
        let ghost before = indices@;
        indices.set(i, b);
        indices.set(j, a);
        proof {
            assert(indices@ =~= before.update(i as int, before[j as int]).update(j as int, before[i as int]));
            assert forall|x: int, y: int| 0 <= x < n && 0 <= y < n && x != y implies indices@[x] != indices@[y] by {
                let fx = if x == i { j as int } else if x == j { i as int } else { x };
                let fy = if y == i { j as int } else if y == j { i as int } else { y };
                assert(indices@[x] == before[fx]);
                assert(indices@[y] == before[fy]);
            }
            assert forall|t: int| 0 <= t < n implies #[trigger] indices@[t] < n by {
                let ft = if t == i { j as int } else if t == j { i as int } else { t };
                assert(indices@[t] == before[ft]);
            }
        }
        i += 1;
    }
    let mut out: Vec<ValidatorInfo> = Vec::new();
    let mut t: usize = 0;
    while t < k
        invariant
            k <= n,
            n == validators@.len(),
            t <= k,
            indices@.len() == n,
            forall|x: int| 0 <= x < n ==> #[trigger] indices@[x] < n,
            out@.len() == t,
            forall|x: int| 0 <= x < t ==> #[trigger] out@[x]@ == validators@[indices@[x] as int]@,
            vm == crate::types::validators_model(validators@),
            indices@ == shuffle_after(zone_seed(randomness_seed@, zone_id), n, k as nat).0,
            k == if committee_size < n { committee_size } else { n },
        decreases k - t,
    {
        let v = validators[indices[t]].clone();
        out.push(v);
        t += 1;
    }
    proof {
        let idx = Seq::new(k as nat, |x: int| indices@[x] as int);
        let om = crate::types::validators_model(out@);
        assert(om =~= sampled_committee(randomness_seed@, zone_id, vm, committee_size)) by {
            assert forall|x: int| 0 <= x < om.len() implies om[x] == sampled_committee(randomness_seed@, zone_id, vm, committee_size)[x] by {
                assert(out@[x]@ == validators@[indices@[x] as int]@);
            }
        }
        assert(idx.no_duplicates()) by {
            assert forall|x: int, y: int| 0 <= x < idx.len() && 0 <= y < idx.len() && x != y implies idx[x] != idx[y] by {
                assert(indices@[x] != indices@[y]);
            }
        }
        assert forall|x: int| 0 <= x < idx.len() implies 0 <= #[trigger] idx[x] < vm.len() && om[x] == vm[idx[x]] by {
            assert(out@[x]@ == validators@[indices@[x] as int]@);
        }
        assert(idx.len() == om.len());
    }
    out
}

/// Whether validator `id` sits in committee `c`.
pub open spec fn id_in(c: Seq<[u8; 32]>, id: [u8; 32]) -> bool {
    exists|i: int| 0 <= i < c.len() && c[i] == id
}

/// The validator ids of committee members, in order.
pub open spec fn member_ids(c: Seq<ValidatorModel>) -> Seq<[u8; 32]> {
    c.map_values(|v: ValidatorModel| v.validator_id)
}


/// Compute all zone assignments for a validator in a given epoch: the
/// zones, in increasing order, whose sampled committee contains
/// `my_validator_id`. Each zone's committee is the one
/// [`sample_committee`] draws for it.
pub fn my_assigned_zones(
    my_validator_id: &[u8; 32],
    randomness_seed: &[u8; 32],
    validators: &[ValidatorInfo],
    total_zones: u32,
    committee_size: usize,
) -> (r: Vec<ZoneId>)
    ensures
        forall|a: int, b: int| 0 <= a < b < r@.len() ==> r@[a] < r@[b],
        forall|a: int| 0 <= a < r@.len() ==> r@[a] < total_zones,
        r@.len() > 0 ==> id_in(validator_ids(validators@), *my_validator_id),
        exists|cs: Seq<Seq<ValidatorModel>>| #![trigger cs.len()] {
            &&& cs.len() == total_zones
            &&& forall|z: int| 0 <= z < total_zones ==> #[trigger] cs[z] == sampled_committee(
                randomness_seed@,
                z as u32,
                crate::types::validators_model(validators@),
                committee_size,
            )
            &&& forall|z: int| 0 <= z < total_zones ==> (r@.contains(z as u32) <==> id_in(
                member_ids(#[trigger] cs[z]),
                *my_validator_id,
            ))
        },
{
    let ghost vm = crate::types::validators_model(validators@);
    let ghost mut cs: Seq<Seq<ValidatorModel>> = Seq::empty();
    let mut zones: Vec<ZoneId> = Vec::new();
    let mut zone_id: u32 = 0;
    while zone_id < total_zones
        invariant
            zone_id <= total_zones,
            vm == crate::types::validators_model(validators@),
            forall|a: int, b: int| 0 <= a < b < zones@.len() ==> zones@[a] < zones@[b],
            forall|a: int| 0 <= a < zones@.len() ==> zones@[a] < zone_id,
            zones@.len() > 0 ==> id_in(validator_ids(validators@), *my_validator_id),
            cs.len() == zone_id,
            forall|z: int| 0 <= z < zone_id ==> #[trigger] cs[z] == sampled_committee(randomness_seed@, z as u32, vm, committee_size),
            forall|z: int| 0 <= z < zone_id ==> (zones@.contains(z as u32) <==> id_in(
                member_ids(#[trigger] cs[z]),
                *my_validator_id,
            )),
        decreases total_zones - zone_id,
    {
        let committee = sample_committee(randomness_seed, zone_id, validators, committee_size);
        let ghost cm = crate::types::validators_model(committee@);
        proof {
            assert(member_ids(cm) =~= validator_ids(committee@));
        }
        let mut found = false;
        let mut i: usize = 0;
        while i < committee.len()
            invariant
                i <= committee@.len(),
                found <==> exists|j: int| 0 <= j < i && validator_ids(committee@)[j] == *my_validator_id,
            decreases committee@.len() - i,
        {
            if bytes32_eq(&committee[i].validator_id, my_validator_id) {
                assert(validator_ids(committee@)[i as int] == *my_validator_id);
                found = true;
            }
            i += 1;
        }
        assert(found <==> id_in(validator_ids(committee@), *my_validator_id));
        let ghost before = zones@;
        if found {
            proof {
                let cm = crate::types::validators_model(committee@);
                let vm = crate::types::validators_model(validators@);
                let x = choose|x: int| 0 <= x < committee@.len() && validator_ids(committee@)[x] == *my_validator_id;
                let idx = choose|idx: Seq<int>| #![trigger idx.len()] {
                    &&& idx.len() == cm.len()
                    &&& idx.no_duplicates()
                    &&& forall|t: int| 0 <= t < idx.len() ==> 0 <= #[trigger] idx[t] < vm.len() && cm[t] == vm[idx[t]]
                };
                assert(cm[x] == vm[idx[x]]);
                assert(validator_ids(validators@)[idx[x]] == *my_validator_id);
            }
            zones.push(zone_id);
        }
        proof {
            cs = cs.push(cm);
            assert forall|z: int| 0 <= z < zone_id + 1 implies (zones@.contains(z as u32) <==> id_in(
                member_ids(#[trigger] cs[z]),
                *my_validator_id,
            )) by {
                if z < zone_id {
                    assert(cs[z] == cs.drop_last()[z]);
                    if zones@.contains(z as u32) {
                        let k = choose|k: int| 0 <= k < zones@.len() && zones@[k] == z as u32;
                        if k < before.len() {
                            assert(before[k] == zones@[k]);
                        }
                    }
                    if before.contains(z as u32) {
                        let k = choose|k: int| 0 <= k < before.len() && before[k] == z as u32;
                        assert(zones@[k] == before[k]);
                    }
                } else {
                    if zones@.contains(z as u32) {
                        let k = choose|k: int| 0 <= k < zones@.len() && zones@[k] == z as u32;
                        if k < before.len() {
                            assert(before[k] < zone_id);
                        }
                    }
                    if found {
                        assert(zones@[before.len() as int] == zone_id);
                    }
                }
            }
        }
        zone_id += 1;
    }
    zones
}

} // verus!
