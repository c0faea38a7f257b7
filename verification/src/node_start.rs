//! What a node decides when the Zephyr service starts: its validator id,
//! the validator pool it runs with, and the consensus task of each zone.
use vstd::prelude::*;
use vstd::string::*;
use crate::config::ZephyrConfig;
use crate::sector::ProgramId;
use crate::service::{OwnedProgram, ServiceDescriptor};
use crate::text::{dec_chars, push_decimal};
use crate::publishing::ZoneShared;
use crate::types::{ValidatorInfo, ZoneId};
use crate::zone_task::{shared_wf, ZoneTaskState};

verus! {

/// The validator id derived from a public key: its first 32 bytes, padded
/// with zeros when the key is shorter.
pub open spec fn validator_id_spec(pk: Seq<u8>) -> Seq<u8> {
    Seq::new(32, |i: int| if i < pk.len() { pk[i] } else { 0u8 })
}

/// The validator id of a node with public key `pk`.
pub fn validator_id_from_public_key(pk: &[u8]) -> (r: [u8; 32])
    ensures
        r@ == validator_id_spec(pk@),
{
    let mut vid = [0u8; 32];
    let mut i: usize = 0;
    while i < 32 && i < pk.len()
        invariant
            i <= 32,
            i <= pk@.len(),
            forall|j: int| 0 <= j < i ==> vid@[j] == pk@[j],
            forall|j: int| i <= j < 32 ==> vid@[j] == 0u8,
            vid@.len() == 32,
        decreases 32 - i,
    {
        vid.set(i, pk[i]);
        i += 1;
    }
    assert(vid@ =~= validator_id_spec(pk@));
    vid
}

/// The validators a node runs with: the configured validators, or, when
/// none is configured and the node is asked to validate by itself, the
/// node alone if it has an identity (its public key and zode id): its id
/// and key derived from the public key, its endpoint its zode id.
pub fn start_validators(
    configured: Vec<ValidatorInfo>,
    self_validate: bool,
    identity: Option<(&[u8], &str)>,
) -> (r: Vec<ValidatorInfo>)
    ensures
        match identity {
            Some((pk, zode_id)) if self_validate && configured@.len() == 0 => {
                &&& r@.len() == 1
                &&& r@[0].validator_id@ == validator_id_spec(pk@)
                &&& r@[0].pubkey == r@[0].validator_id
                &&& r@[0].p2p_endpoint@ == zode_id@
            },
            _ => r@ == configured@,
        },
{
    if self_validate && configured.len() == 0 {
        match identity {
            Some((pk, zode_id)) => {
                let vid = validator_id_from_public_key(pk);
                let mut r: Vec<ValidatorInfo> = Vec::new();
                r.push(ValidatorInfo { validator_id: vid, pubkey: vid, p2p_endpoint: zode_id.to_string() });
                return r;
            },
            None => {},
        }
    }
    configured
}

/// The topics of one zone: its transaction topic and its consensus topic.
pub struct ZoneTopics {
    pub zone_topic: String,
    pub consensus_topic: String,
}

/// The consensus task of every zone at start: one per zone in order, each
/// serving its zone in epoch 0 (with the committee drawn from
/// `randomness_seed`) exactly when the zone is among `assigned`.
pub fn initial_zone_tasks(
    shared: &ZoneShared,
    topics: Vec<ZoneTopics>,
    global_topic: &String,
    validators: &Vec<ValidatorInfo>,
    my_validator_id: [u8; 32],
    config: ZephyrConfig,
    max_pending_certs: usize,
    assigned: &Vec<ZoneId>,
    randomness_seed: &[u8; 32],
) -> (r: Vec<ZoneTaskState>)
    requires
        topics@.len() <= u32::MAX,
        max_pending_certs * 3 <= usize::MAX,
    ensures
        r@.len() == topics@.len(),
        forall|i: int| 0 <= i < r@.len() ==> {
            &&& (#[trigger] r@[i]).wf()
            &&& r@[i].spec_zone() == i
            &&& r@[i].spec_last_epoch() == 0
            &&& r@[i].spec_consensus_topic() == topics@[i].consensus_topic@
            &&& r@[i].spec_global_topic() == global_topic@
            &&& (r@[i].spec_engine() is Some <==> assigned@.contains(i as ZoneId))
            &&& (r@[i].spec_engine() matches Some(e) ==> e.epoch == 0)
            &&& r@[i].spec_engine() is Some ==> crate::zone_task::fresh_engine(
                r@[i].spec_engine(),
                shared.zone_heads@,
                i as u32,
                0,
                crate::committee::sampled_committee(
                    randomness_seed@,
                    i as u32,
                    crate::types::validators_model(validators@),
                    config.committee_size,
                ),
                my_validator_id,
                config,
            )
        },
{
    let mut topics = topics;
    let mut rev: Vec<ZoneTopics> = Vec::new();
    let ghost orig = topics@;
    while topics.len() > 0
        invariant
            rev@.len() + topics@.len() == orig.len(),
            topics@ == orig.subrange(0, topics@.len() as int),
            forall|k: int| 0 <= k < rev@.len() ==> #[trigger] rev@[k] == orig[orig.len() - 1 - k],
        decreases topics@.len(),
    {
        let t = topics.pop().unwrap();
        rev.push(t);
    }
    let mut tasks: Vec<ZoneTaskState> = Vec::new();
    let mut zone_id: u32 = 0;
    while rev.len() > 0
        invariant
            orig.len() <= u32::MAX,
            tasks@.len() == zone_id,
            rev@.len() + zone_id == orig.len(),
            forall|k: int| 0 <= k < rev@.len() ==> #[trigger] rev@[k] == orig[orig.len() - 1 - k],
            max_pending_certs * 3 <= usize::MAX,
            forall|i: int| 0 <= i < tasks@.len() ==> {
                &&& (#[trigger] tasks@[i]).wf()
                &&& tasks@[i].spec_zone() == i
                &&& tasks@[i].spec_last_epoch() == 0
                &&& tasks@[i].spec_consensus_topic() == orig[i].consensus_topic@
                &&& tasks@[i].spec_global_topic() == global_topic@
                &&& (tasks@[i].spec_engine() is Some <==> assigned@.contains(i as ZoneId))
                &&& (tasks@[i].spec_engine() matches Some(e) ==> e.epoch == 0)
                &&& tasks@[i].spec_engine() is Some ==> crate::zone_task::fresh_engine(
                    tasks@[i].spec_engine(),
                    shared.zone_heads@,
                    i as u32,
                    0,
                    crate::committee::sampled_committee(
                        randomness_seed@,
                        i as u32,
                        crate::types::validators_model(validators@),
                        config.committee_size,
                    ),
                    my_validator_id,
                    config,
                )
            },
        decreases rev@.len(),
    {
        let t = rev.pop().unwrap();
        let mut task = ZoneTaskState::new(
            zone_id,
            crate::types::copy_validators(validators.as_slice()),
            my_validator_id,
            config,
            max_pending_certs,
            t.zone_topic,
            t.consensus_topic,
            global_topic.clone(),
        );
        let mut is_assigned = false;
        let mut k: usize = 0;
        while k < assigned.len()
            invariant
                k <= assigned@.len(),
                is_assigned == exists|j: int| 0 <= j < k && assigned@[j] == zone_id,
            decreases assigned@.len() - k,
        {
            if assigned[k] == zone_id {
                is_assigned = true;
            }
            k += 1;
        }
        proof {
            assert(is_assigned == assigned@.contains(zone_id));
        }
        if is_assigned {
            task.start_engine(shared, 0, randomness_seed);
        }
        tasks.push(task);
        zone_id += 1;
    }
    tasks
}

/// The topics a node follows when it starts: the global topic, then the
/// transaction and consensus topics of each zone it is assigned to, in
/// zone order.
pub open spec fn spec_start_subscriptions(
    global: Seq<char>,
    topics: Seq<(Seq<char>, Seq<char>)>,
    assigned: Seq<ZoneId>,
) -> Seq<Seq<char>>
    decreases topics.len(),
{
    if topics.len() == 0 {
        seq![global]
    } else {
        let prev = spec_start_subscriptions(global, topics.drop_last(), assigned);
        if assigned.contains((topics.len() - 1) as u32) {
            prev.push(topics.last().0).push(topics.last().1)
        } else {
            prev
        }
    }
}

/// The topic pairs by their text.
pub open spec fn topic_pairs(topics: Seq<(String, String)>) -> Seq<(Seq<char>, Seq<char>)> {
    topics.map_values(|p: (String, String)| (p.0@, p.1@))
}

/// The topics to subscribe at start (see [`spec_start_subscriptions`]);
/// zone `i` has the pair `topics[i]`.
pub fn start_subscriptions(global: &String, topics: &Vec<(String, String)>, assigned: &Vec<ZoneId>) -> (r: Vec<String>)
    requires
        topics@.len() <= u32::MAX,
    ensures
        r@.map_values(|t: String| t@) == spec_start_subscriptions(global@, topic_pairs(topics@), assigned@),
{
    let mut out: Vec<String> = Vec::new();
    out.push(global.clone());
    proof {
        assert(out@.map_values(|t: String| t@) =~= spec_start_subscriptions(global@, topic_pairs(topics@).take(0), assigned@));
    }
    let mut zone: usize = 0;
    while zone < topics.len()
        invariant
            zone <= topics@.len(),
            topics@.len() <= u32::MAX,
            out@.map_values(|t: String| t@) == spec_start_subscriptions(global@, topic_pairs(topics@).take(zone as int), assigned@),
        decreases topics@.len() - zone,
    {
        let z = zone as u32;
        let mut listed = false;
        let mut k: usize = 0;
        while k < assigned.len()
            invariant
                k <= assigned@.len(),
                listed == exists|j: int| 0 <= j < k && assigned@[j] == z,
            decreases assigned@.len() - k,
        {
            if assigned[k] == z {
                listed = true;
            }
            k += 1;
        }
        let ghost before = out@;
        proof {
            assert(listed == assigned@.contains(z));
            let tp = topic_pairs(topics@);
            assert(tp.take(zone + 1).drop_last() =~= tp.take(zone as int));
            assert(tp.take(zone + 1).last() == tp[zone as int]);
        }
        if listed {
            out.push(topics[zone].0.clone());
            out.push(topics[zone].1.clone());
            proof {
                assert(out@.map_values(|t: String| t@) =~= before.map_values(|t: String| t@).push(topics@[zone as int].0@).push(
                    topics@[zone as int].1@,
                ));
            }
        }
        zone += 1;
    }
    proof {
        assert(topic_pairs(topics@).take(topics@.len() as int) =~= topic_pairs(topics@));
    }
    out
}

/// The owned program entries of the Zephyr service: name, version and id.
pub open spec fn owned_entries(v: Seq<OwnedProgram>) -> Seq<(Seq<char>, Seq<char>, ProgramId)> {
    v.map_values(|o: OwnedProgram| (o.name@, o.version@, o.program_id))
}

/// The programs the Zephyr service owns: the global, spend and validator
/// programs, then the program of each zone (`zephyr/zone-<i>`), then the
/// consensus program of each zone (`zephyr/zone_consensus-<i>`), all at
/// version `1`.
pub open spec fn zephyr_owned_spec(
    global: ProgramId,
    spend: ProgramId,
    validators: ProgramId,
    zones: Seq<ProgramId>,
    consensus: Seq<ProgramId>,
) -> Seq<(Seq<char>, Seq<char>, ProgramId)> {
    seq![
        ("zephyr/global"@, "1"@, global),
        ("zephyr/spend"@, "1"@, spend),
        ("zephyr/validators"@, "1"@, validators),
    ] + Seq::new(zones.len(), |i: int| ("zephyr/zone-"@ + dec_chars(i as nat), "1"@, zones[i])) + Seq::new(
        consensus.len(),
        |i: int| ("zephyr/zone_consensus-"@ + dec_chars(i as nat), "1"@, consensus[i]),
    )
}

/// The Zephyr descriptor owns three programs plus one zone program and one
/// consensus program per zone; the global program comes first and each
/// zone's programs sit at fixed places, so descriptors built from the same
/// ids agree.
pub proof fn law_descriptor_programs(
    global: ProgramId,
    spend: ProgramId,
    validators: ProgramId,
    zones: Seq<ProgramId>,
    consensus: Seq<ProgramId>,
)
    requires
        zones.len() == consensus.len(),
    ensures
        zephyr_owned_spec(global, spend, validators, zones, consensus).len() == 3 + 2 * zones.len(),
        zephyr_owned_spec(global, spend, validators, zones, consensus)[0].2 == global,
        forall|i: int| 0 <= i < zones.len() ==> #[trigger] zephyr_owned_spec(global, spend, validators, zones, consensus)[3 + i].2
            == zones[i],
        forall|i: int| 0 <= i < consensus.len() ==> #[trigger] zephyr_owned_spec(global, spend, validators, zones, consensus)[3
            + zones.len() + i].2 == consensus[i],
{
}

/// One owned program entry named `prefix` followed by the decimal `i`.
fn numbered_program(prefix: &str, i: u64, pid: ProgramId) -> (r: OwnedProgram)
    ensures
        r.name@ == prefix@ + dec_chars(i as nat),
        r.version@ == "1"@,
        r.program_id == pid,
{
    let mut name = String::from_str(prefix);
    push_decimal(&mut name, i);
    OwnedProgram { name, version: String::from_str("1"), program_id: pid }
}

/// The descriptor of the Zephyr service, given the ids of its programs:
/// `ZEPHYR` version `0.1.0`, requiring no program and owning those of
/// [`zephyr_owned_spec`].
pub fn zephyr_descriptor(
    global: ProgramId,
    spend: ProgramId,
    validators: ProgramId,
    zones: &Vec<ProgramId>,
    consensus: &Vec<ProgramId>,
) -> (r: ServiceDescriptor)
    ensures
        r.name@ == "ZEPHYR"@,
        r.version@ == "0.1.0"@,
        r.required_programs@.len() == 0,
        owned_entries(r.owned_programs@) == zephyr_owned_spec(global, spend, validators, zones@, consensus@),
        r.summary@ == "Note-based currency with zone-scoped consensus."@,
{
    let mut owned: Vec<OwnedProgram> = Vec::new();
    owned.push(OwnedProgram { name: String::from_str("zephyr/global"), version: String::from_str("1"), program_id: global });
    owned.push(OwnedProgram { name: String::from_str("zephyr/spend"), version: String::from_str("1"), program_id: spend });
    owned.push(OwnedProgram {
        name: String::from_str("zephyr/validators"),
        version: String::from_str("1"),
        program_id: validators,
    });
    let ghost head = owned_entries(owned@);
    assert(head =~= seq![
        ("zephyr/global"@, "1"@, global),
        ("zephyr/spend"@, "1"@, spend),
        ("zephyr/validators"@, "1"@, validators),
    ]);
    let ghost zone_part = Seq::new(zones@.len(), |i: int| ("zephyr/zone-"@ + dec_chars(i as nat), "1"@, zones@[i]));
    let mut i: usize = 0;
    while i < zones.len()
        invariant
            i <= zones@.len(),
            zone_part == Seq::new(zones@.len(), |k: int| ("zephyr/zone-"@ + dec_chars(k as nat), "1"@, zones@[k])),
            owned_entries(owned@) == head + zone_part.subrange(0, i as int),
        decreases zones@.len() - i,
    {
        let entry = numbered_program("zephyr/zone-", i as u64, zones[i]);
        let ghost before = owned@;
        owned.push(entry);
        i += 1;
        proof {
            assert(owned_entries(owned@) =~= owned_entries(before).push(("zephyr/zone-"@ + dec_chars((i - 1) as nat), "1"@, zones@[i - 1])));
            assert(owned_entries(owned@) =~= head + zone_part.subrange(0, i as int));
        }
    }
    assert(zone_part.subrange(0, i as int) =~= zone_part);
    let ghost cons_part = Seq::new(
        consensus@.len(),
        |i: int| ("zephyr/zone_consensus-"@ + dec_chars(i as nat), "1"@, consensus@[i]),
    );
    let mut j: usize = 0;
    while j < consensus.len()
        invariant
            j <= consensus@.len(),
            cons_part == Seq::new(
                consensus@.len(),
                |k: int| ("zephyr/zone_consensus-"@ + dec_chars(k as nat), "1"@, consensus@[k]),
            ),
            owned_entries(owned@) == head + zone_part + cons_part.subrange(0, j as int),
        decreases consensus@.len() - j,
    {
        let entry = numbered_program("zephyr/zone_consensus-", j as u64, consensus[j]);
        let ghost before = owned@;
        owned.push(entry);
        j += 1;
        proof {
            assert(owned_entries(owned@) =~= owned_entries(before).push(
                ("zephyr/zone_consensus-"@ + dec_chars((j - 1) as nat), "1"@, consensus@[j - 1]),
            ));
            assert(owned_entries(owned@) =~= head + zone_part + cons_part.subrange(0, j as int));
        }
    }
    assert(cons_part.subrange(0, j as int) =~= cons_part);
    ServiceDescriptor {
        name: String::from_str("ZEPHYR"),
        version: String::from_str("0.1.0"),
        required_programs: Vec::new(),
        owned_programs: owned,
        summary: String::from_str("Note-based currency with zone-scoped consensus."),
    }
}

} // verus!
