use zephyr_grid::gossip::{
    consensus_queue, spend_submission, zone_for_topic, ConsensusQueue, GossipRoute, ZephyrGossipHandler,
};
use zephyr_grid::messages::{RejectReason, SpendReject, ZephyrZoneMessage};
use zephyr_grid::service::ServiceGossipHandler;
use zephyr_grid::types::{BlockVote, NoteCommitment, Nullifier, SpendTransaction};

fn make_handler() -> ZephyrGossipHandler {
    ZephyrGossipHandler::new("prog/global_topic_hex".to_owned())
}

#[test]
fn handles_registered_topics() {
    let mut handler = make_handler();
    assert!(handler.handles_topic("prog/global_topic_hex"));
    assert!(!handler.handles_topic("prog/unknown"));

    handler.add_zone_topic("prog/zone_0".to_owned());
    assert!(handler.handles_topic("prog/zone_0"));

    handler.add_consensus_topic("prog/cons_0".to_owned());
    assert!(handler.handles_topic("prog/cons_0"));

    handler.remove_zone_topic("prog/zone_0");
    assert!(!handler.handles_topic("prog/zone_0"));
    assert!(handler.handles_topic("prog/cons_0"));
}

#[test]
fn routes_by_topic_kind() {
    let mut handler = make_handler();
    handler.add_zone_topic("prog/zone_1".to_owned());
    handler.add_consensus_topic("prog/cons_5".to_owned());
    assert_eq!(handler.route("prog/global_topic_hex"), GossipRoute::Global);
    assert_eq!(handler.route("prog/cons_5"), GossipRoute::Consensus);
    assert_eq!(handler.route("prog/zone_1"), GossipRoute::Zone);
    assert_eq!(handler.route("prog/zone_2"), GossipRoute::Ignore);
    assert!(handler.is_zone_topic("prog/zone_1"));
    assert!(!handler.is_consensus_topic("prog/zone_1"));
}

#[test]
fn removing_a_topic_twice_registered_drops_it() {
    let mut handler = make_handler();
    handler.add_zone_topic("prog/z".to_owned());
    handler.add_zone_topic("prog/z".to_owned());
    handler.add_zone_topic("prog/y".to_owned());
    handler.remove_zone_topic("prog/z");
    assert!(!handler.is_zone_topic("prog/z"));
    assert!(handler.is_zone_topic("prog/y"));
}

#[test]
fn consensus_messages_pick_their_queue() {
    let reject = ZephyrZoneMessage::Reject(SpendReject {
        nullifier: Nullifier([1; 32]),
        reason: RejectReason::DuplicateNullifier,
    });
    assert_eq!(consensus_queue(&reject), ConsensusQueue::Votes);
    let vote = ZephyrZoneMessage::Vote(BlockVote {
        zone_id: 0,
        epoch: 0,
        block_hash: [0; 32],
        voter_id: [1; 32],
        signature: vec![],
    });
    assert_eq!(consensus_queue(&vote), ConsensusQueue::Votes);
    let spend = ZephyrZoneMessage::SubmitSpend(SpendTransaction {
        input_commitment: NoteCommitment([0; 32]),
        nullifier: Nullifier([1; 32]),
        outputs: vec![],
        proof: vec![2, 3],
        public_signals: vec![],
    });
    assert_eq!(consensus_queue(&spend), ConsensusQueue::Votes);
}

fn spend(b: u8) -> SpendTransaction {
    SpendTransaction {
        input_commitment: NoteCommitment([b; 32]),
        nullifier: Nullifier([b; 32]),
        outputs: vec![],
        proof: vec![],
        public_signals: vec![],
    }
}

#[test]
fn spend_topics_map_to_their_zones() {
    let table = vec![("zone/a".to_string(), 3u32), ("zone/b".to_string(), 5u32)];
    assert_eq!(zone_for_topic(&table, "zone/b"), Some(5));
    assert_eq!(zone_for_topic(&table, "zone/c"), None);
    match spend_submission(&table, "zone/a", ZephyrZoneMessage::SubmitSpend(spend(9))) {
        Some((z, tx)) => {
            assert_eq!(z, 3);
            assert_eq!(tx.nullifier, Nullifier([9; 32]));
        }
        None => panic!("expected a submission"),
    }
    assert!(spend_submission(&table, "zone/x", ZephyrZoneMessage::SubmitSpend(spend(9))).is_none());
    let reject = ZephyrZoneMessage::Reject(SpendReject { nullifier: Nullifier([1; 32]), reason: RejectReason::DuplicateNullifier });
    assert!(spend_submission(&table, "zone/a", reject).is_none());
}
