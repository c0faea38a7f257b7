use zephyr_grid::mempool::Mempool;
use zephyr_grid::types::{NoteCommitment, Nullifier, SpendTransaction};

fn dummy_spend(nullifier_byte: u8) -> SpendTransaction {
    SpendTransaction {
        input_commitment: NoteCommitment([0; 32]),
        nullifier: Nullifier([nullifier_byte; 32]),
        outputs: vec![],
        proof: vec![],
        public_signals: vec![],
    }
}

#[test]
fn insert_and_drain() {
    let mut mp = Mempool::new(0, 100);
    assert!(mp.insert(dummy_spend(1)));
    assert!(mp.insert(dummy_spend(2)));
    assert_eq!(mp.len(), 2);

    let drained = mp.drain_proposal(1);
    assert_eq!(drained.len(), 1);
    assert_eq!(drained[0].nullifier, Nullifier([1; 32]));
    assert_eq!(mp.len(), 1);
}

#[test]
fn rejects_duplicate_nullifier() {
    let mut mp = Mempool::new(0, 100);
    assert!(mp.insert(dummy_spend(1)));
    assert!(!mp.insert(dummy_spend(1)));
    assert_eq!(mp.len(), 1);
}

#[test]
fn rejects_when_full() {
    let mut mp = Mempool::new(0, 2);
    assert!(mp.insert(dummy_spend(1)));
    assert!(mp.insert(dummy_spend(2)));
    assert!(!mp.insert(dummy_spend(3)));
}

#[test]
fn contains_nullifier_check() {
    let mut mp = Mempool::new(0, 100);
    let n = Nullifier([0xAA; 32]);
    assert!(!mp.contains_nullifier(&n));
    mp.insert(dummy_spend(0xAA));
    assert!(mp.contains_nullifier(&n));
}

#[test]
fn drain_more_than_available() {
    let mut mp = Mempool::new(0, 100);
    mp.insert(dummy_spend(1));
    let drained = mp.drain_proposal(10);
    assert_eq!(drained.len(), 1);
    assert!(mp.is_empty());
}

#[test]
fn remove_nullifiers_after_finalization() {
    let mut mp = Mempool::new(0, 100);
    mp.insert(dummy_spend(1));
    mp.insert(dummy_spend(2));
    mp.insert(dummy_spend(3));

    mp.remove_nullifiers(&[Nullifier([1; 32]), Nullifier([3; 32])]);
    assert_eq!(mp.len(), 1);
    assert!(!mp.contains_nullifier(&Nullifier([1; 32])));
    assert!(mp.contains_nullifier(&Nullifier([2; 32])));
    assert!(!mp.contains_nullifier(&Nullifier([3; 32])));
}

#[test]
fn fifo_ordering() {
    let mut mp = Mempool::new(0, 100);
    for i in 0..5 {
        mp.insert(dummy_spend(i));
    }
    let drained = mp.drain_proposal(5);
    for (i, spend) in drained.iter().enumerate() {
        assert_eq!(spend.nullifier, Nullifier([i as u8; 32]));
    }
}

#[test]
fn peek_does_not_remove() {
    let mut mp = Mempool::new(0, 100);
    mp.insert(dummy_spend(1));
    mp.insert(dummy_spend(2));

    let peeked = mp.peek(2);
    assert_eq!(peeked.len(), 2);
    assert_eq!(mp.len(), 2, "peek must not remove items");

    let peeked_one = mp.peek(1);
    assert_eq!(peeked_one.len(), 1);
    assert_eq!(peeked_one[0].nullifier, Nullifier([1; 32]));
}

#[test]
fn drain_skips_removed_nullifiers() {
    let mut mp = Mempool::new(0, 100);
    mp.insert(dummy_spend(1));
    mp.insert(dummy_spend(2));
    mp.insert(dummy_spend(3));

    mp.remove_nullifiers(&[Nullifier([1; 32]), Nullifier([2; 32])]);

    let drained = mp.drain_proposal(10);
    assert_eq!(drained.len(), 1);
    assert_eq!(drained[0].nullifier, Nullifier([3; 32]));
    assert!(mp.is_empty());
}

#[test]
fn reinsert_after_timeout() {
    let mut mp = Mempool::new(0, 100);
    mp.insert(dummy_spend(1));
    mp.insert(dummy_spend(2));

    let drained = mp.drain_proposal(2);
    assert_eq!(mp.len(), 0);

    mp.reinsert_batch(drained);
    assert_eq!(mp.len(), 2);

    let re_drained = mp.drain_proposal(2);
    assert_eq!(re_drained.len(), 2);
}

#[test]
fn insert_batch_counts_accepted() {
    let mut mp = Mempool::new(3, 3);
    let n = mp.insert_batch(vec![dummy_spend(1), dummy_spend(1), dummy_spend(2), dummy_spend(3), dummy_spend(4)]);
    assert_eq!(n, 3);
    assert_eq!(mp.len(), 3);
    assert_eq!(mp.zone_id(), 3);
}

#[test]
fn retain_keeps_selected_spends_in_order() {
    let mut mp = Mempool::new(0, 100);
    for i in 1..=4 {
        mp.insert(dummy_spend(i));
    }
    let removed = mp.retain(|n: &Nullifier| n.0[0] % 2 == 0);
    assert_eq!(removed, 2);
    let left = mp.peek(10);
    assert_eq!(left.len(), 2);
    assert_eq!(left[0].nullifier, Nullifier([2; 32]));
    assert_eq!(left[1].nullifier, Nullifier([4; 32]));
}

#[test]
fn drained_spend_cannot_be_double_inserted_while_pending() {
    let mut mp = Mempool::new(0, 100);
    mp.insert(dummy_spend(9));
    assert!(!mp.insert(dummy_spend(9)));
    let drained = mp.drain_proposal(1);
    assert_eq!(drained.len(), 1);
    assert!(mp.insert(dummy_spend(9)));
}
