use zephyr_grid::display::{block_status, build_sector_aad, djb2, keep_first_per_zone, short_sender, BlockStatus};
use zephyr_grid::sector::{ProgramId, SectorId};

#[test]
fn djb2_known_values() {
    assert_eq!(djb2(""), 5381);
    assert_eq!(djb2("a"), 5381 * 33 + 97);
    assert_eq!(djb2("ab"), (5381u64 * 33 + 97) * 33 + 98);
    let long = "x".repeat(100);
    let mut h: u64 = 5381;
    for b in long.bytes() {
        h = h.wrapping_mul(33).wrapping_add(b as u64);
    }
    assert_eq!(djb2(&long), h);
}

#[test]
fn short_sender_keeps_last_six_bytes() {
    assert_eq!(short_sender("did:key:z6Mkabcdef"), "...abcdef");
    assert_eq!(short_sender("abcdef"), "abcdef");
    assert_eq!(short_sender("abcdefg"), "...bcdefg");
    assert_eq!(short_sender(""), "");
}

#[test]
fn block_status_thresholds() {
    assert_eq!(block_status(0), BlockStatus::Proposed);
    assert_eq!(block_status(299), BlockStatus::Proposed);
    assert_eq!(block_status(300), BlockStatus::Voting);
    assert_eq!(block_status(599), BlockStatus::Voting);
    assert_eq!(block_status(600), BlockStatus::Certified);
}

#[test]
fn sector_aad_is_program_then_sector() {
    let aad = build_sector_aad(&ProgramId([7; 32]), &SectorId::from_bytes(vec![1, 2, 3]));
    assert_eq!(aad.len(), 35);
    assert_eq!(&aad[..32], &[7u8; 32]);
    assert_eq!(&aad[32..], &[1, 2, 3]);
}

#[test]
fn each_zone_keeps_its_oldest_blocks_up_to_the_limit() {
    let zones = vec![1, 2, 1, 1, 2, 3, 1];
    assert_eq!(keep_first_per_zone(&zones, 2), vec![true, true, true, false, true, true, false]);
    assert_eq!(keep_first_per_zone(&zones, 0), vec![false; 7]);
    assert!(keep_first_per_zone(&vec![], 5).is_empty());
}
