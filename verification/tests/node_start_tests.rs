use zephyr_grid::config::ZephyrConfig;
use zephyr_grid::node_start::{
    initial_zone_tasks, start_subscriptions, start_validators, validator_id_from_public_key, zephyr_descriptor,
    ZoneTopics,
};
use zephyr_grid::sector::ProgramId;
use zephyr_grid::publishing::{RuntimeStats, ZoneShared};
use zephyr_grid::shared_mempool::SharedMempool;
use zephyr_grid::storage::ZoneHead;
use zephyr_grid::types::ValidatorInfo;

#[test]
fn validator_id_takes_first_32_key_bytes() {
    let long: Vec<u8> = (0..40).collect();
    let id = validator_id_from_public_key(&long);
    assert_eq!(&id[..], &long[..32]);
    let short = [7u8, 8, 9];
    let mut expected = [0u8; 32];
    expected[..3].copy_from_slice(&short);
    assert_eq!(validator_id_from_public_key(&short), expected);
}

#[test]
fn self_validating_node_runs_alone() {
    let pk = [5u8; 32];
    let v = start_validators(vec![], true, Some((&pk[..], "zode-1")));
    assert_eq!(v.len(), 1);
    assert_eq!(v[0].validator_id, [5u8; 32]);
    assert_eq!(v[0].pubkey, [5u8; 32]);
    assert_eq!(v[0].p2p_endpoint, "zode-1");
}

#[test]
fn configured_validators_win_over_self_validation() {
    let configured = vec![ValidatorInfo { validator_id: [1; 32], pubkey: [1; 32], p2p_endpoint: "a".into() }];
    let pk = [5u8; 32];
    let v = start_validators(configured.clone(), true, Some((&pk[..], "zode-1")));
    assert_eq!(v, configured);
    assert!(start_validators(vec![], true, None).is_empty());
    assert!(start_validators(vec![], false, Some((&pk[..], "zode-1"))).is_empty());
}

#[test]
fn only_assigned_zones_start_serving() {
    let shared = ZoneShared { mempool: SharedMempool::new(), zone_heads: ZoneHead::new(), stats: RuntimeStats::new() };
    let topics: Vec<ZoneTopics> = (0..3)
        .map(|z| ZoneTopics { zone_topic: format!("zone/{z}"), consensus_topic: format!("consensus/{z}") })
        .collect();
    let validators = vec![ValidatorInfo { validator_id: [1; 32], pubkey: [1; 32], p2p_endpoint: "a".into() }];
    let tasks = initial_zone_tasks(
        &shared,
        topics,
        &"global".to_string(),
        &validators,
        [1; 32],
        ZephyrConfig::default(),
        64,
        &vec![1],
        &[0; 32],
    );
    assert_eq!(tasks.len(), 3);
    for (i, t) in tasks.iter().enumerate() {
        assert_eq!(t.zone_id(), i as u32);
        assert_eq!(t.is_serving(), i == 1);
        assert_eq!(t.last_known_epoch(), 0);
    }
}

#[test]
fn zephyr_descriptor_lists_owned_programs_in_order() {
    let zones = vec![ProgramId([10; 32]), ProgramId([11; 32])];
    let consensus = vec![ProgramId([20; 32]), ProgramId([21; 32])];
    let d = zephyr_descriptor(ProgramId([1; 32]), ProgramId([2; 32]), ProgramId([3; 32]), &zones, &consensus);
    assert_eq!(d.name, "ZEPHYR");
    assert_eq!(d.version, "0.1.0");
    assert!(d.required_programs.is_empty());
    let names: Vec<&str> = d.owned_programs.iter().map(|o| o.name.as_str()).collect();
    assert_eq!(
        names,
        vec![
            "zephyr/global",
            "zephyr/spend",
            "zephyr/validators",
            "zephyr/zone-0",
            "zephyr/zone-1",
            "zephyr/zone_consensus-0",
            "zephyr/zone_consensus-1",
        ]
    );
    assert!(d.owned_programs.iter().all(|o| o.version == "1"));
    assert_eq!(d.owned_programs[4].program_id, ProgramId([11; 32]));
    assert_eq!(d.owned_programs[6].program_id, ProgramId([21; 32]));
    assert_eq!(d.all_program_ids().len(), 7);
}

#[test]
fn start_subscriptions_follow_global_then_assigned_zones() {
    let topics: Vec<(String, String)> = (0..3)
        .map(|z| (format!("zone/{}", z), format!("consensus/{}", z)))
        .collect();
    let assigned: Vec<u32> = vec![2, 0];
    let subs = start_subscriptions(&"global".to_string(), &topics, &assigned);
    assert_eq!(subs, vec!["global", "zone/0", "consensus/0", "zone/2", "consensus/2"]);
    let none = start_subscriptions(&"global".to_string(), &topics, &Vec::new());
    assert_eq!(none, vec!["global"]);
}
