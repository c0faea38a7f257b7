use zephyr_grid::messages::{
    DirectMessage, DirectMessageAck, EpochAnnouncement, RejectReason, SpendReject,
    ZephyrGlobalMessage, ZephyrZoneMessage,
};
use zephyr_grid::types::Nullifier;

#[test]
fn messages_compare_by_value() {
    let a = DirectMessage { topic: "t".into(), payload: vec![1, 2] };
    assert_eq!(a.clone(), a);
    assert!(DirectMessageAck { ok: true }.ok);
    let r = ZephyrZoneMessage::Reject(SpendReject {
        nullifier: Nullifier([1; 32]),
        reason: RejectReason::DuplicateNullifier,
    });
    assert_eq!(r.clone(), r);
    let g = ZephyrGlobalMessage::EpochAnnounce(EpochAnnouncement {
        epoch: 3,
        randomness_seed: [9; 32],
        start_time_ms: 10,
    });
    assert_ne!(
        g,
        ZephyrGlobalMessage::EpochAnnounce(EpochAnnouncement {
            epoch: 4,
            randomness_seed: [9; 32],
            start_time_ms: 10,
        })
    );
}
