use zephyr_grid::storage::{NullifierSet, ZoneHead};
use zephyr_grid::types::Nullifier;

#[test]
fn get_or_genesis_returns_zero_for_unknown() {
    let zh = ZoneHead::new();
    assert_eq!(zh.get_or_genesis(42), [0u8; 32]);
}

#[test]
fn set_and_get() {
    let mut zh = ZoneHead::new();
    let head = [0xAB; 32];
    zh.set(5, head);
    assert_eq!(zh.get(5), Some(&head));
    assert_eq!(zh.get_or_genesis(5), head);
}

#[test]
fn remove_clears_head() {
    let mut zh = ZoneHead::new();
    zh.set(3, [1; 32]);
    assert!(zh.contains(3));
    zh.remove(3);
    assert!(!zh.contains(3));
    assert_eq!(zh.get(3), None);
}

#[test]
fn zone_head_read_after_write_keeps_other_zones() {
    let mut zh = ZoneHead::default();
    zh.set(1, [1; 32]);
    zh.set(2, [2; 32]);
    zh.set(1, [3; 32]);
    assert_eq!(zh.get_or_genesis(1), [3; 32]);
    assert_eq!(zh.get_or_genesis(2), [2; 32]);
}

#[test]
fn nullifier_set_insert_and_contains() {
    let mut set = NullifierSet::in_memory(7);
    assert!(set.is_empty());
    assert_eq!(set.insert(Nullifier([1; 32])), Ok(true));
    assert_eq!(set.insert(Nullifier([1; 32])), Ok(false));
    assert_eq!(set.insert(Nullifier([2; 32])), Ok(true));
    assert_eq!(set.len(), 2);
    assert!(set.contains(&Nullifier([2; 32])));
    assert!(!set.contains(&Nullifier([3; 32])));
    assert_eq!(set.zone_id(), 7);
}
