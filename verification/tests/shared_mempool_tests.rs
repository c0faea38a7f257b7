use zephyr_grid::shared_mempool::SharedMempool;
use zephyr_grid::types::{NoteCommitment, Nullifier, SpendTransaction};

fn dummy_spend(nullifier_byte: u8) -> SpendTransaction {
    SpendTransaction {
        input_commitment: NoteCommitment([0; 32]),
        nullifier: Nullifier([nullifier_byte; 32]),
        outputs: vec![],
        proof: vec![],
        public_signals: vec![],
    }
}

#[test]
fn insert_and_peek() {
    let mut mp = SharedMempool::new();
    mp.add_zone(0, 100);

    assert!(mp.insert(0, dummy_spend(1)));
    assert!(mp.insert(0, dummy_spend(2)));
    assert_eq!(mp.len(0), 2);

    let peeked = mp.peek(0, 10);
    assert_eq!(peeked.len(), 2);
    assert_eq!(mp.len(0), 2);
}

#[test]
fn insert_returns_false_for_unknown_zone() {
    let mut mp = SharedMempool::new();
    assert!(!mp.insert(99, dummy_spend(1)));
}

#[test]
fn remove_nullifiers_cleans_up() {
    let mut mp = SharedMempool::new();
    mp.add_zone(0, 100);

    mp.insert(0, dummy_spend(1));
    mp.insert(0, dummy_spend(2));
    mp.insert(0, dummy_spend(3));

    mp.remove_nullifiers(0, &[Nullifier([1; 32]), Nullifier([3; 32])]);
    assert_eq!(mp.len(0), 1);
}

#[test]
fn add_and_remove_zone() {
    let mut mp = SharedMempool::new();
    mp.add_zone(5, 100);
    assert!(mp.insert(5, dummy_spend(1)));
    mp.remove_zone(5);
    assert_eq!(mp.len(5), 0);
    assert!(!mp.insert(5, dummy_spend(2)));
}

#[test]
fn zone_sizes_snapshot() {
    let mut mp = SharedMempool::new();
    mp.add_zone(0, 100);
    mp.add_zone(1, 100);
    mp.insert(0, dummy_spend(1));
    mp.insert(0, dummy_spend(2));
    mp.insert(1, dummy_spend(3));

    let sizes = mp.zone_sizes();
    assert_eq!(sizes[&0], 2);
    assert_eq!(sizes[&1], 1);
}

#[test]
fn add_zone_twice_keeps_contents() {
    let mut mp = SharedMempool::new();
    mp.add_zone(2, 100);
    mp.insert(2, dummy_spend(7));
    mp.add_zone(2, 1);
    assert_eq!(mp.len(2), 1);
    assert!(mp.insert(2, dummy_spend(8)));
}

#[test]
fn drain_reinsert_and_retain_per_zone() {
    let mut mp = SharedMempool::new();
    mp.add_zone(0, 100);
    mp.add_zone(1, 100);
    assert_eq!(mp.insert_batch(0, vec![dummy_spend(1), dummy_spend(2), dummy_spend(2)]), 2);
    mp.insert(1, dummy_spend(9));
    let drained = mp.drain_proposal(0, 1);
    assert_eq!(drained.len(), 1);
    assert_eq!(drained[0].nullifier, Nullifier([1; 32]));
    assert_eq!(mp.len(1), 1);
    mp.reinsert_batch(0, drained);
    assert_eq!(mp.len(0), 2);
    assert_eq!(mp.retain(0, |n: &Nullifier| n.0[0] == 2), 1);
    assert_eq!(mp.peek(0, 5)[0].nullifier, Nullifier([2; 32]));
    assert!(mp.drain_proposal(7, 3).is_empty());
}

#[test]
fn ingest_inserts_each_spend_into_its_zone_in_order() {
    let mut mp = SharedMempool::new();
    mp.add_zone(0, 100);
    mp.add_zone(1, 100);
    mp.ingest(vec![(0, dummy_spend(1)), (1, dummy_spend(2)), (0, dummy_spend(3)), (7, dummy_spend(4)), (0, dummy_spend(1))]);
    assert_eq!(mp.len(0), 2);
    assert_eq!(mp.len(1), 1);
    let zone0: Vec<u8> = mp.peek(0, 10).iter().map(|t| t.nullifier.0[0]).collect();
    assert_eq!(zone0, vec![1, 3]);
}
