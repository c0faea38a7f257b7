use ed25519_dalek::{Signer, SigningKey};
use zephyr_grid::config::ZephyrConfig;
use zephyr_grid::consensus::engine::ZoneConsensus;
use zephyr_grid::consensus::leader::leader_for_round;
use zephyr_grid::consensus::pending_certs::PendingCertBuffer;
use zephyr_grid::types::{CertSignature, FinalityCertificate, ValidatorInfo};

fn make_keys(n: usize) -> Vec<SigningKey> {
    (0..n)
        .map(|i| {
            let mut seed = [0u8; 32];
            seed[0] = i as u8;
            SigningKey::from_bytes(&seed)
        })
        .collect()
}

fn make_committee_from_keys(keys: &[SigningKey]) -> Vec<ValidatorInfo> {
    keys.iter()
        .enumerate()
        .map(|(i, sk)| {
            let pk = sk.verifying_key().to_bytes();
            ValidatorInfo {
                validator_id: pk,
                pubkey: pk,
                p2p_endpoint: format!("/ip4/127.0.0.1/tcp/{}", 4000 + i),
            }
        })
        .collect()
}

fn test_config() -> ZephyrConfig {
    ZephyrConfig {
        total_zones: 4,
        committee_size: 3,
        quorum_threshold: 2,
        max_block_size: 64,
        ..ZephyrConfig::default()
    }
}

fn make_unsigned_cert(
    zone: u32,
    epoch: u64,
    height: u64,
    parent: [u8; 32],
    block: [u8; 32],
) -> FinalityCertificate {
    FinalityCertificate {
        zone_id: zone,
        epoch,
        height,
        block_hash: block,
        parent_hash: parent,
        signatures: vec![],
    }
}

fn make_signed_cert(
    zone: u32,
    epoch: u64,
    height: u64,
    parent: [u8; 32],
    block: [u8; 32],
    keys: &[SigningKey],
    signer_indices: &[usize],
) -> FinalityCertificate {
    FinalityCertificate {
        zone_id: zone,
        epoch,
        height,
        block_hash: block,
        parent_hash: parent,
        signatures: signer_indices
            .iter()
            .map(|&i| CertSignature {
                validator_id: keys[i].verifying_key().to_bytes(),
                signature: keys[i].sign(&block).to_bytes().to_vec(),
            })
            .collect(),
    }
}

#[test]
fn push_rejects_duplicate() {
    let mut buf = PendingCertBuffer::new(10);
    let cert = make_unsigned_cert(0, 0, 0, [0xAA; 32], [0xBB; 32]);
    assert!(buf.push(cert.clone()));
    assert!(!buf.push(cert));
    assert_eq!(buf.len(), 1);
}

#[test]
fn push_rejects_when_full() {
    let mut buf = PendingCertBuffer::new(2);
    assert!(buf.push(make_unsigned_cert(0, 0, 0, [1; 32], [2; 32])));
    assert!(buf.push(make_unsigned_cert(0, 0, 1, [2; 32], [3; 32])));
    assert!(!buf.push(make_unsigned_cert(0, 0, 2, [3; 32], [4; 32])));
}

#[test]
fn drain_applicable_chains_certs() {
    let keys = make_keys(3);
    let committee = make_committee_from_keys(&keys);
    let leader_id = leader_for_round(&committee, 0, 0).validator_id;
    let mut eng = ZoneConsensus::new(0, 0, committee, leader_id, [0xAA; 32], test_config(), 0);

    let mut buf = PendingCertBuffer::new(10);
    buf.push(make_signed_cert(0, 0, 1, [0xBB; 32], [0xCC; 32], &keys, &[0, 1]));
    buf.push(make_signed_cert(0, 0, 0, [0xAA; 32], [0xBB; 32], &keys, &[0, 1]));

    let applied = buf.drain_applicable(&mut eng);
    assert_eq!(applied.len(), 2);
    assert_eq!(eng.height(), 2);
    assert!(buf.is_empty());
}

#[test]
fn retain_epoch_drops_old() {
    let mut buf = PendingCertBuffer::new(10);
    buf.push(make_unsigned_cert(0, 0, 0, [1; 32], [2; 32]));
    buf.push(make_unsigned_cert(0, 4, 0, [3; 32], [4; 32]));
    buf.push(make_unsigned_cert(0, 5, 0, [5; 32], [6; 32]));
    buf.retain_epoch(5);
    assert_eq!(buf.len(), 2);
}

#[test]
fn purge_overflow_trims() {
    let mut buf = PendingCertBuffer::new(8);
    for i in 0..7u8 {
        buf.push(make_unsigned_cert(0, 0, i as u64, [i; 32], [i + 100; 32]));
    }
    assert_eq!(buf.len(), 7);
    buf.purge_overflow();
    assert_eq!(buf.len(), 6);
}

#[test]
fn drain_applies_in_height_order_and_keeps_unrelated() {
    let committee = make_committee_from_keys(&make_keys(3));
    let leader_id = leader_for_round(&committee, 0, 0).validator_id;
    let mut eng = ZoneConsensus::new(0, 0, committee, leader_id, [0x01; 32], test_config(), 0);
    let mut buf = PendingCertBuffer::new(10);
    buf.push(make_unsigned_cert(0, 0, 2, [0x03; 32], [0x04; 32]));
    buf.push(make_unsigned_cert(0, 0, 7, [0x70; 32], [0x71; 32]));
    buf.push(make_unsigned_cert(0, 0, 0, [0x01; 32], [0x02; 32]));
    buf.push(make_unsigned_cert(0, 0, 1, [0x02; 32], [0x03; 32]));
    let applied = buf.drain_applicable(&mut eng);
    let heights: Vec<u64> = applied.iter().map(|c| c.height).collect();
    assert_eq!(heights, vec![0, 1, 2]);
    assert_eq!(eng.parent_hash(), &[0x04; 32]);
    assert_eq!(buf.len(), 1);
    assert_eq!(buf.iter()[0].height, 7);
}

#[test]
fn clear_empties_buffer() {
    let mut buf = PendingCertBuffer::new(4);
    buf.push(make_unsigned_cert(0, 0, 0, [1; 32], [2; 32]));
    assert!(!buf.is_empty());
    buf.clear();
    assert!(buf.is_empty());
    assert_eq!(buf.len(), 0);
}
