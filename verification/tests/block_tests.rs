use zephyr_grid::consensus::block::{build_block, compute_block_hash, compute_transactions_root, BlockParams};
use zephyr_grid::types::{BlockHeader, NoteCommitment, Nullifier, SpendTransaction};

fn dummy_spend(nullifier_byte: u8) -> SpendTransaction {
    SpendTransaction {
        input_commitment: NoteCommitment([0; 32]),
        nullifier: Nullifier([nullifier_byte; 32]),
        outputs: vec![],
        proof: vec![],
        public_signals: vec![],
    }
}

#[test]
fn block_hash_is_deterministic() {
    let header = BlockHeader {
        zone_id: 0,
        epoch: 1,
        height: 0,
        parent_hash: [0; 32],
        transactions_root: [0; 32],
        timestamp_ms: 1_000,
        proposer_id: [0xAA; 32],
    };
    let h1 = compute_block_hash(&header);
    let h2 = compute_block_hash(&header);
    assert_eq!(h1, h2);
}

#[test]
fn block_hash_changes_with_zone() {
    let mut header = BlockHeader {
        zone_id: 0,
        epoch: 1,
        height: 0,
        parent_hash: [0; 32],
        transactions_root: [0; 32],
        timestamp_ms: 1_000,
        proposer_id: [0xAA; 32],
    };
    let h1 = compute_block_hash(&header);
    header.zone_id = 1;
    let h2 = compute_block_hash(&header);
    assert_ne!(h1, h2);
}

#[test]
fn build_block_includes_all_transactions() {
    let spends = vec![dummy_spend(1), dummy_spend(2)];
    let params = BlockParams {
        zone_id: 0,
        epoch: 1,
        height: 0,
        parent_hash: [0; 32],
        timestamp_ms: 1_000,
        proposer_id: [0xAA; 32],
    };
    let block = build_block(params, spends, |hash: &[u8]| hash.to_vec());
    assert_eq!(block.transactions.len(), 2);
    assert_eq!(block.header.proposer_id, [0xAA; 32]);
}

#[test]
fn build_block_signs_block_hash() {
    let spends = vec![dummy_spend(1)];
    let params = BlockParams {
        zone_id: 0,
        epoch: 1,
        height: 0,
        parent_hash: [0; 32],
        timestamp_ms: 1_000,
        proposer_id: [0xBB; 32],
    };
    let block = build_block(params, spends, |hash: &[u8]| hash.to_vec());
    assert_eq!(block.proposer_sig, block.block_hash.to_vec());
}

#[test]
fn built_block_hash_covers_its_header() {
    let spends = vec![dummy_spend(3), dummy_spend(4)];
    let params = BlockParams {
        zone_id: 2,
        epoch: 5,
        height: 9,
        parent_hash: [7; 32],
        timestamp_ms: 42,
        proposer_id: [1; 32],
    };
    let block = build_block(params, spends, |hash: &[u8]| hash.to_vec());
    assert_eq!(block.block_hash, compute_block_hash(&block.header));
    assert_eq!(
        block.header.transactions_root,
        compute_transactions_root(&[Nullifier([3; 32]), Nullifier([4; 32])])
    );
    assert_eq!(block.header.height, 9);
    assert_eq!(block.header.parent_hash, [7; 32]);
}

#[test]
fn transactions_root_depends_on_order() {
    let a = compute_transactions_root(&[Nullifier([1; 32]), Nullifier([2; 32])]);
    let b = compute_transactions_root(&[Nullifier([2; 32]), Nullifier([1; 32])]);
    assert_ne!(a, b);
}
