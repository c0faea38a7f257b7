use zephyr_grid::config::ZephyrConfig;
use zephyr_grid::publishing::{
    CertificateNotice, OutboundMessage, Publication, RuntimeStats, TopicCommand, ZoneShared,
};
use zephyr_grid::shared_mempool::SharedMempool;
use zephyr_grid::storage::ZoneHead;
use zephyr_grid::types::{
    Block, BlockHeader, FinalityCertificate, NoteCommitment, Nullifier, SpendTransaction,
    ValidatorInfo,
};
use zephyr_grid::zone_task::{EpochSnapshot, ZoneTaskState};

fn validator(b: u8) -> ValidatorInfo {
    let mut id = [0u8; 32];
    id[0] = b;
    ValidatorInfo { validator_id: id, pubkey: id, p2p_endpoint: format!("/ip4/10.0.0.{}/tcp/4000", b) }
}

fn shared() -> ZoneShared {
    ZoneShared { mempool: SharedMempool::new(), zone_heads: ZoneHead::new(), stats: RuntimeStats::new() }
}

fn task(validators: Vec<ValidatorInfo>, me: [u8; 32], config: ZephyrConfig) -> ZoneTaskState {
    ZoneTaskState::new(
        0,
        validators,
        me,
        config,
        64,
        "zephyr/zone/0".to_string(),
        "zephyr/zone/0/consensus".to_string(),
        "zephyr/global".to_string(),
    )
}

fn sign(data: &[u8]) -> Vec<u8> {
    data.to_vec()
}

fn cert(height: u64, parent: [u8; 32], hash: [u8; 32]) -> FinalityCertificate {
    FinalityCertificate { zone_id: 0, epoch: 0, height, parent_hash: parent, block_hash: hash, signatures: vec![] }
}

fn spend(n: u8) -> SpendTransaction {
    SpendTransaction {
        input_commitment: NoteCommitment([n; 32]),
        nullifier: Nullifier([n; 32]),
        outputs: vec![],
        proof: vec![],
        public_signals: vec![],
    }
}

fn block_spending(ns: &[u8]) -> Block {
    Block {
        header: BlockHeader {
            zone_id: 0,
            epoch: 0,
            height: 0,
            parent_hash: [0; 32],
            transactions_root: [0; 32],
            timestamp_ms: 0,
            proposer_id: [1; 32],
        },
        transactions: ns.iter().map(|n| spend(*n)).collect(),
        block_hash: [9; 32],
        proposer_sig: vec![],
    }
}

#[test]
fn task_without_engine_finalizes_incoming_certificates() {
    let mut t = task(vec![validator(1)], validator(1).validator_id, ZephyrConfig::default());
    let mut sh = shared();
    let mut out: Vec<Publication> = Vec::new();
    let notice = CertificateNotice {
        cert: cert(0, [0; 32], [7; 32]),
        tx_nullifiers: vec!["0505050505050505".to_string()],
        nullifiers: vec![Nullifier([5; 32])],
    };
    t.handle_certificate(&mut sh, notice, &sign, &mut out);
    assert_eq!(sh.zone_heads.get_or_genesis(0), [7; 32]);
    assert!(out.is_empty());
    assert!(t.is_spent(&Nullifier([5; 32])));
    assert!(!t.is_spent(&Nullifier([6; 32])));
    assert_eq!(sh.stats.blocks_produced, 1);
}

#[test]
fn proposal_spending_a_finalized_nullifier_is_refused() {
    let mut t = task(vec![validator(1)], validator(1).validator_id, ZephyrConfig::default());
    let mut sh = shared();
    let mut out: Vec<Publication> = Vec::new();
    let notice = CertificateNotice {
        cert: cert(0, [0; 32], [7; 32]),
        tx_nullifiers: vec![],
        nullifiers: vec![Nullifier([5; 32])],
    };
    t.handle_certificate(&mut sh, notice, &sign, &mut out);
    assert!(!t.verify_proposal_transactions(&block_spending(&[4, 5])));
    assert!(t.verify_proposal_transactions(&block_spending(&[4, 6])));
}

#[test]
fn epoch_transition_gains_then_loses_zone() {
    let me = validator(1).validator_id;
    let mut t = task(vec![validator(1)], me, ZephyrConfig::default());
    let mut sh = shared();
    let mut topics: Vec<TopicCommand> = Vec::new();
    assert!(!t.is_serving());

    let gain = EpochSnapshot { current_epoch: 1, randomness_seed: [3; 32], assigned_zones: vec![0, 2] };
    t.check_epoch_transition(&mut sh, &gain, &mut topics);
    assert!(t.is_serving());
    assert_eq!(t.last_known_epoch(), 1);
    assert_eq!(
        topics,
        vec![
            TopicCommand::Subscribe("zephyr/zone/0".to_string()),
            TopicCommand::Subscribe("zephyr/zone/0/consensus".to_string()),
        ]
    );
    assert_eq!(sh.stats.assigned_zones, vec![0, 2]);

    let lose = EpochSnapshot { current_epoch: 2, randomness_seed: [4; 32], assigned_zones: vec![1] };
    t.check_epoch_transition(&mut sh, &lose, &mut topics);
    assert!(!t.is_serving());
    assert_eq!(t.last_known_epoch(), 2);
    assert_eq!(topics.len(), 4);
    assert_eq!(topics[2], TopicCommand::Unsubscribe("zephyr/zone/0".to_string()));
    assert_eq!(topics[3], TopicCommand::Unsubscribe("zephyr/zone/0/consensus".to_string()));
}

#[test]
fn epoch_transition_ignores_old_epochs() {
    let me = validator(1).validator_id;
    let mut t = task(vec![validator(1)], me, ZephyrConfig::default());
    let mut sh = shared();
    let mut topics: Vec<TopicCommand> = Vec::new();
    let gain = EpochSnapshot { current_epoch: 3, randomness_seed: [3; 32], assigned_zones: vec![0] };
    t.check_epoch_transition(&mut sh, &gain, &mut topics);
    let stale = EpochSnapshot { current_epoch: 2, randomness_seed: [3; 32], assigned_zones: vec![] };
    t.check_epoch_transition(&mut sh, &stale, &mut topics);
    assert!(t.is_serving());
    assert_eq!(t.last_known_epoch(), 3);
    assert_eq!(topics.len(), 2);
}

#[test]
fn kept_zone_stays_subscribed_without_new_commands() {
    let me = validator(1).validator_id;
    let mut t = task(vec![validator(1)], me, ZephyrConfig::default());
    let mut sh = shared();
    let mut topics: Vec<TopicCommand> = Vec::new();
    t.check_epoch_transition(&mut sh, &EpochSnapshot { current_epoch: 1, randomness_seed: [3; 32], assigned_zones: vec![0] }, &mut topics);
    t.check_epoch_transition(&mut sh, &EpochSnapshot { current_epoch: 2, randomness_seed: [5; 32], assigned_zones: vec![0] }, &mut topics);
    assert!(t.is_serving());
    assert_eq!(topics.len(), 2);
}

#[test]
fn lone_validator_finalizes_its_own_blocks() {
    let me = validator(1).validator_id;
    let config = ZephyrConfig { committee_size: 1, quorum_threshold: 1, ..ZephyrConfig::default() };
    let mut t = task(vec![validator(1)], me, config);
    let mut sh = shared();
    let mut out: Vec<Publication> = Vec::new();
    let mut topics: Vec<TopicCommand> = Vec::new();
    let snapshot = EpochSnapshot { current_epoch: 1, randomness_seed: [3; 32], assigned_zones: vec![0] };
    t.check_epoch_transition(&mut sh, &snapshot, &mut topics);
    assert!(sh.mempool.insert(0, spend(42)));
    for _ in 0..200 {
        t.handle_tick(&mut sh, &snapshot, &sign, &mut out, &mut topics);
    }
    let certs: Vec<&CertificateNotice> = out
        .iter()
        .filter_map(|p| match &p.message {
            OutboundMessage::Certificate(n) => Some(n),
            _ => None,
        })
        .collect();
    assert!(!certs.is_empty());
    assert!(out.iter().any(|p| p.topic == "zephyr/global"));
    assert_eq!(sh.zone_heads.get_or_genesis(0), certs.last().unwrap().cert.block_hash);
    assert!(t.is_spent(&Nullifier([42; 32])));
    assert_eq!(sh.mempool.len(0), 0);
}

#[test]
fn certificate_on_another_head_is_buffered() {
    let me = validator(1).validator_id;
    let mut t = task(vec![validator(1), validator(2), validator(3)], me, ZephyrConfig::default());
    let mut sh = shared();
    let mut out: Vec<Publication> = Vec::new();
    let mut topics: Vec<TopicCommand> = Vec::new();
    t.check_epoch_transition(&mut sh, &EpochSnapshot { current_epoch: 1, randomness_seed: [3; 32], assigned_zones: vec![0] }, &mut topics);
    let first = CertificateNotice {
        cert: FinalityCertificate { zone_id: 0, epoch: 1, height: 0, parent_hash: [1; 32], block_hash: [7; 32], signatures: vec![] },
        tx_nullifiers: vec![],
        nullifiers: vec![],
    };
    t.handle_certificate(&mut sh, first, &sign, &mut out);
    assert_eq!(sh.zone_heads.get(0), Some(&[7; 32]));
    let far = CertificateNotice {
        cert: FinalityCertificate { zone_id: 0, epoch: 1, height: 5, parent_hash: [8; 32], block_hash: [9; 32], signatures: vec![] },
        tx_nullifiers: vec![],
        nullifiers: vec![],
    };
    t.handle_certificate(&mut sh, far, &sign, &mut out);
    assert_eq!(t.pending_cert_count(), 1);
    assert_eq!(sh.zone_heads.get(0), Some(&[7; 32]));
    assert!(out.is_empty());
}

#[test]
fn applied_certificate_drains_chained_buffer() {
    let me = validator(1).validator_id;
    let mut t = task(vec![validator(1), validator(2), validator(3)], me, ZephyrConfig::default());
    let mut sh = shared();
    let mut out: Vec<Publication> = Vec::new();
    let mut topics: Vec<TopicCommand> = Vec::new();
    t.check_epoch_transition(&mut sh, &EpochSnapshot { current_epoch: 1, randomness_seed: [3; 32], assigned_zones: vec![0] }, &mut topics);
    let notice = |height: u64, parent: [u8; 32], hash: [u8; 32]| CertificateNotice {
        cert: FinalityCertificate { zone_id: 0, epoch: 1, height, parent_hash: parent, block_hash: hash, signatures: vec![] },
        tx_nullifiers: vec![],
        nullifiers: vec![],
    };
    t.handle_certificate(&mut sh, notice(0, [1; 32], [7; 32]), &sign, &mut out);
    t.handle_certificate(&mut sh, notice(2, [8; 32], [9; 32]), &sign, &mut out);
    assert_eq!(t.pending_cert_count(), 1);
    t.handle_certificate(&mut sh, notice(1, [7; 32], [8; 32]), &sign, &mut out);
    assert_eq!(sh.zone_heads.get(0), Some(&[9; 32]));
    assert_eq!(t.pending_cert_count(), 0);
}

#[test]
fn losing_the_zone_clears_buffered_certificates() {
    let me = validator(1).validator_id;
    let mut t = task(vec![validator(1), validator(2), validator(3)], me, ZephyrConfig::default());
    let mut sh = shared();
    let mut out: Vec<Publication> = Vec::new();
    let mut topics: Vec<TopicCommand> = Vec::new();
    t.check_epoch_transition(&mut sh, &EpochSnapshot { current_epoch: 1, randomness_seed: [3; 32], assigned_zones: vec![0] }, &mut topics);
    let first = CertificateNotice {
        cert: FinalityCertificate { zone_id: 0, epoch: 1, height: 0, parent_hash: [1; 32], block_hash: [7; 32], signatures: vec![] },
        tx_nullifiers: vec![],
        nullifiers: vec![],
    };
    t.handle_certificate(&mut sh, first, &sign, &mut out);
    let far = CertificateNotice {
        cert: FinalityCertificate { zone_id: 0, epoch: 1, height: 5, parent_hash: [8; 32], block_hash: [9; 32], signatures: vec![] },
        tx_nullifiers: vec![],
        nullifiers: vec![],
    };
    t.handle_certificate(&mut sh, far, &sign, &mut out);
    assert_eq!(t.pending_cert_count(), 1);
    t.check_epoch_transition(&mut sh, &EpochSnapshot { current_epoch: 2, randomness_seed: [4; 32], assigned_zones: vec![] }, &mut topics);
    assert!(!t.is_serving());
    assert_eq!(t.pending_cert_count(), 0);
}
