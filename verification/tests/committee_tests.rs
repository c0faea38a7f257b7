use rand::Rng;
use rand::SeedableRng;
use sha2::Digest;
use zephyr_grid::committee::{my_assigned_zones, sample_committee};
use zephyr_grid::types::ValidatorInfo;

fn make_validators(n: usize) -> Vec<ValidatorInfo> {
    (0..n)
        .map(|i| {
            let mut id = [0u8; 32];
            id[0] = i as u8;
            ValidatorInfo {
                validator_id: id,
                pubkey: id,
                p2p_endpoint: format!("/ip4/127.0.0.1/tcp/{}", 4000 + i),
            }
        })
        .collect()
}

#[test]
fn deterministic_same_inputs_same_committee() {
    let seed = [0xABu8; 32];
    let validators = make_validators(20);
    let c1 = sample_committee(&seed, 5, &validators, 5);
    let c2 = sample_committee(&seed, 5, &validators, 5);
    assert_eq!(c1, c2);
}

#[test]
fn committee_size_respected() {
    let seed = [1u8; 32];
    let validators = make_validators(20);
    let committee = sample_committee(&seed, 0, &validators, 5);
    assert_eq!(committee.len(), 5);
}

#[test]
fn committee_size_capped_at_validator_count() {
    let seed = [2u8; 32];
    let validators = make_validators(3);
    let committee = sample_committee(&seed, 0, &validators, 10);
    assert_eq!(committee.len(), 3);
}

#[test]
fn different_zones_get_different_committees() {
    let seed = [3u8; 32];
    let validators = make_validators(20);
    let c1 = sample_committee(&seed, 0, &validators, 5);
    let c2 = sample_committee(&seed, 1, &validators, 5);
    let ids1: Vec<_> = c1.iter().map(|v| v.validator_id).collect();
    let ids2: Vec<_> = c2.iter().map(|v| v.validator_id).collect();
    assert_ne!(ids1, ids2);
}

#[test]
fn no_duplicates_in_committee() {
    let seed = [4u8; 32];
    let validators = make_validators(20);
    let committee = sample_committee(&seed, 0, &validators, 10);
    let mut ids: Vec<_> = committee.iter().map(|v| v.validator_id).collect();
    ids.sort();
    ids.dedup();
    assert_eq!(ids.len(), committee.len());
}

#[test]
fn empty_validators_returns_empty() {
    let seed = [5u8; 32];
    let committee = sample_committee(&seed, 0, &[], 5);
    assert!(committee.is_empty());
}

#[test]
fn my_assigned_zones_finds_assignments() {
    let seed = [6u8; 32];
    let validators = make_validators(10);
    let zones = my_assigned_zones(&validators[0].validator_id, &seed, &validators, 16, 5);
    assert!(!zones.is_empty(), "validator should be assigned to at least one zone");
    for &zone_id in &zones {
        assert!(zone_id < 16);
    }
}

#[test]
fn all_validators_assigned_somewhere() {
    let seed = [7u8; 32];
    let validators = make_validators(10);
    for v in &validators {
        let zones = my_assigned_zones(&v.validator_id, &seed, &validators, 32, 5);
        assert!(
            !zones.is_empty(),
            "validator {:?} should have at least one zone assignment",
            &v.validator_id[..4]
        );
    }
}

#[test]
fn different_seeds_produce_different_assignments() {
    let validators = make_validators(20);
    let c1 = sample_committee(&[0u8; 32], 0, &validators, 5);
    let c2 = sample_committee(&[1u8; 32], 0, &validators, 5);
    let ids1: Vec<_> = c1.iter().map(|v| v.validator_id).collect();
    let ids2: Vec<_> = c2.iter().map(|v| v.validator_id).collect();
    assert_ne!(ids1, ids2);
}

#[test]
fn unknown_validator_gets_no_zone() {
    let validators = make_validators(10);
    let zones = my_assigned_zones(&[0xEE; 32], &[9u8; 32], &validators, 8, 5);
    assert!(zones.is_empty());
}

#[test]
fn committee_follows_seeded_fisher_yates() {
    let seed = [0x5Au8; 32];
    let validators = make_validators(12);
    let zone: u32 = 3;
    let mut input = seed.to_vec();
    input.extend_from_slice(&zone.to_be_bytes());
    let digest: [u8; 32] = sha2::Sha256::digest(&input).into();
    let mut rng = rand_chacha::ChaCha20Rng::from_seed(digest);
    let mut indices: Vec<usize> = (0..validators.len()).collect();
    for i in 0..4 {
        let j = rng.gen_range(i..validators.len());
        indices.swap(i, j);
    }
    let expected: Vec<ValidatorInfo> = indices[..4].iter().map(|&i| validators[i].clone()).collect();
    assert_eq!(sample_committee(&seed, zone, &validators, 4), expected);
}

#[test]
fn zones_draw_their_own_committees() {
    let seed = [0x11u8; 32];
    let validators = make_validators(20);
    let committees: Vec<Vec<ValidatorInfo>> = (0..4).map(|z| sample_committee(&seed, z, &validators, 5)).collect();
    assert!(committees.iter().any(|c| *c != committees[0]));
}
