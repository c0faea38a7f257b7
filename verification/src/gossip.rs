//! Which Zephyr gossip topics a node handles, and where each message on
//! them is delivered.
use vstd::prelude::*;
use vstd::string::*;
use vstd::utf8::{encode_utf8, encode_utf8_decode_utf8};
use crate::messages::ZephyrZoneMessage;
use crate::sector::bytes_eq;
use crate::service::ServiceGossipHandler;
use crate::types::{SpendTransaction, ZoneId};

verus! {

/// Whether two strings are equal, compared through their UTF-8 bytes.
pub fn str_eq(a: &str, b: &str) -> (r: bool)
    ensures
        r == (a@ == b@),
{
    let r = bytes_eq(a.as_bytes(), b.as_bytes());
    proof {
        encode_utf8_decode_utf8(a@);
        encode_utf8_decode_utf8(b@);
    }
    r
}

/// The topics of a list of strings.
pub open spec fn topic_set(v: Seq<String>) -> Set<Seq<char>> {
    Set::new(|t: Seq<char>| exists|i: int| 0 <= i < v.len() && v[i]@ == t)
}

/// Where a gossip message is delivered.
#[derive(Debug, Clone, Copy, PartialEq, Eq)]
pub enum GossipRoute {
    /// The global topic: certificates and epoch announcements.
    Global,
    /// A zone consensus topic: proposals, votes and rejections.
    Consensus,
    /// A zone spend topic: spend submissions.
    Zone,
    /// A topic this node does not handle.
    Ignore,
}

/// The queue a consensus message joins: proposals get a small,
/// high-priority queue; votes and rejections a larger one.
#[derive(Debug, Clone, Copy, PartialEq, Eq)]
pub enum ConsensusQueue {
    Proposals,
    Votes,
}

/// Gossip handler for Zephyr zone, consensus, and global topics.
///
/// Decoded messages are handed to the queue that [`ZephyrGossipHandler::route`]
/// and [`consensus_queue`] name; messages that do not decode are dropped
/// and never re-gossiped.
pub struct ZephyrGossipHandler {
    zone_topics: Vec<String>,
    consensus_topics: Vec<String>,
    global_topic: String,
}

impl ZephyrGossipHandler {
    /// The registered zone spend topics.
    pub closed spec fn spec_zone_topics(&self) -> Set<Seq<char>> {
        topic_set(self.zone_topics@)
    }

    /// The registered zone consensus topics.
    pub closed spec fn spec_consensus_topics(&self) -> Set<Seq<char>> {
        topic_set(self.consensus_topics@)
    }

    /// The global topic.
    pub closed spec fn spec_global_topic(&self) -> Seq<char> {
        self.global_topic@
    }

    /// A handler for `global_topic`, with no zone topics yet.
    pub fn new(global_topic: String) -> (r: Self)
        ensures
            r.spec_global_topic() == global_topic@,
            r.spec_zone_topics() == Set::<Seq<char>>::empty(),
            r.spec_consensus_topics() == Set::<Seq<char>>::empty(),
    {
        let r = ZephyrGossipHandler { zone_topics: Vec::new(), consensus_topics: Vec::new(), global_topic };
        assert(r.spec_zone_topics() =~= Set::<Seq<char>>::empty());
        assert(r.spec_consensus_topics() =~= Set::<Seq<char>>::empty());
        r
    }

    /// Register a zone spend topic for handling.
    pub fn add_zone_topic(&mut self, topic: String)
        ensures
            final(self).spec_zone_topics() == old(self).spec_zone_topics().insert(topic@),
            final(self).spec_consensus_topics() == old(self).spec_consensus_topics(),
            final(self).spec_global_topic() == old(self).spec_global_topic(),
    {
        let ghost t = topic@;
        let ghost before = self.zone_topics@;
        self.zone_topics.push(topic);
        proof {
            assert(self.zone_topics@[before.len() as int]@ == t);
            assert forall|x: Seq<char>| topic_set(self.zone_topics@).contains(x) <==> topic_set(before).insert(t).contains(x) by {
                if topic_set(before).contains(x) {
                    let i = choose|i: int| 0 <= i < before.len() && #[trigger] before[i]@ == x;
                    assert(self.zone_topics@[i]@ == x);
                }
                if topic_set(self.zone_topics@).contains(x) {
                    let i = choose|i: int| 0 <= i < self.zone_topics@.len() && #[trigger] self.zone_topics@[i]@ == x;
                    if i < before.len() {
                        assert(before[i]@ == x);
                    }
                }
            }
            assert(topic_set(self.zone_topics@) =~= topic_set(before).insert(t));
        }
    }

    /// Register a zone consensus topic for handling.
    pub fn add_consensus_topic(&mut self, topic: String)
        ensures
            final(self).spec_consensus_topics() == old(self).spec_consensus_topics().insert(topic@),
            final(self).spec_zone_topics() == old(self).spec_zone_topics(),
            final(self).spec_global_topic() == old(self).spec_global_topic(),
    {
        let ghost t = topic@;
        let ghost before = self.consensus_topics@;
        self.consensus_topics.push(topic);
        proof {
            assert(self.consensus_topics@[before.len() as int]@ == t);
            assert forall|x: Seq<char>| topic_set(self.consensus_topics@).contains(x) <==> topic_set(before).insert(t).contains(x) by {
                if topic_set(before).contains(x) {
                    let i = choose|i: int| 0 <= i < before.len() && #[trigger] before[i]@ == x;
                    assert(self.consensus_topics@[i]@ == x);
                }
                if topic_set(self.consensus_topics@).contains(x) {
                    let i = choose|i: int| 0 <= i < self.consensus_topics@.len() && #[trigger] self.consensus_topics@[i]@ == x;
                    if i < before.len() {
                        assert(before[i]@ == x);
                    }
                }
            }
            assert(topic_set(self.consensus_topics@) =~= topic_set(before).insert(t));
        }
    }

    /// Unregister a zone spend topic.
    pub fn remove_zone_topic(&mut self, topic: &str)
        ensures
            final(self).spec_zone_topics() == old(self).spec_zone_topics().remove(topic@),
            final(self).spec_consensus_topics() == old(self).spec_consensus_topics(),
            final(self).spec_global_topic() == old(self).spec_global_topic(),
    {
        let ghost before = self.zone_topics@;
        let mut kept: Vec<String> = Vec::new();
        let mut i: usize = 0;
        while i < self.zone_topics.len()
            invariant
                self.zone_topics@ == before,
                i <= before.len(),
                forall|x: Seq<char>| #[trigger] topic_set(kept@).contains(x) <==> (x != topic@
                    && exists|j: int| 0 <= j < i && #[trigger] before[j]@ == x),
            decreases before.len() - i,
        {
            if !str_eq(self.zone_topics[i].as_str(), topic) {
                let ghost k0 = kept@;
                kept.push(self.zone_topics[i].clone());
                proof {
                    assert(kept@[k0.len() as int]@ == before[i as int]@);
                    assert forall|x: Seq<char>| #[trigger] topic_set(kept@).contains(x) <==> (x != topic@
                        && exists|j: int| 0 <= j < i + 1 && #[trigger] before[j]@ == x) by {
                        if topic_set(kept@).contains(x) {
                            let a = choose|a: int| 0 <= a < kept@.len() && #[trigger] kept@[a]@ == x;
                            if a < k0.len() {
                                assert(k0[a]@ == x);
                                assert(topic_set(k0).contains(x));
                            }
                        }
                        if x != topic@ && exists|j: int| 0 <= j < i + 1 && #[trigger] before[j]@ == x {
                            let j = choose|j: int| 0 <= j < i + 1 && #[trigger] before[j]@ == x;
                            if j < i {
                                assert(topic_set(k0).contains(x));
                                let a = choose|a: int| 0 <= a < k0.len() && #[trigger] k0[a]@ == x;
                                assert(kept@[a]@ == x);
                            }
                        }
                    }
                }
            } else {
                proof {
                    assert forall|x: Seq<char>| #[trigger] topic_set(kept@).contains(x) <==> (x != topic@
                        && exists|j: int| 0 <= j < i + 1 && #[trigger] before[j]@ == x) by {
                        if x != topic@ && exists|j: int| 0 <= j < i + 1 && #[trigger] before[j]@ == x {
                            let j = choose|j: int| 0 <= j < i + 1 && #[trigger] before[j]@ == x;
                            assert(j < i);
                        }
                    }
                }
            }
            i += 1;
        }
        self.zone_topics = kept;
        proof {
            assert(topic_set(self.zone_topics@) =~= topic_set(before).remove(topic@));
        }
    }

    fn has_topic(topics: &Vec<String>, topic: &str) -> (r: bool)
        ensures
            r == topic_set(topics@).contains(topic@),
    {
        let mut i: usize = 0;
        while i < topics.len()
            invariant
                i <= topics@.len(),
                forall|j: int| 0 <= j < i ==> #[trigger] topics@[j]@ != topic@,
            decreases topics@.len() - i,
        {
            if str_eq(topics[i].as_str(), topic) {
                return true;
            }
            i += 1;
        }
        false
    }

    /// Whether `topic` is a registered zone spend topic.
    pub fn is_zone_topic(&self, topic: &str) -> (r: bool)
        ensures
            r == self.spec_zone_topics().contains(topic@),
    {
        Self::has_topic(&self.zone_topics, topic)
    }

    /// Whether `topic` is a registered zone consensus topic.
    pub fn is_consensus_topic(&self, topic: &str) -> (r: bool)
        ensures
            r == self.spec_consensus_topics().contains(topic@),
    {
        Self::has_topic(&self.consensus_topics, topic)
    }

    /// Where a message on `topic` goes: the global topic first, then the
    /// consensus topics, then the zone topics; anything else is ignored.
    pub fn route(&self, topic: &str) -> (r: GossipRoute)
        ensures
            r == if topic@ == self.spec_global_topic() {
                GossipRoute::Global
            } else if self.spec_consensus_topics().contains(topic@) {
                GossipRoute::Consensus
            } else if self.spec_zone_topics().contains(topic@) {
                GossipRoute::Zone
            } else {
                GossipRoute::Ignore
            },
    {
        if str_eq(topic, self.global_topic.as_str()) {
            GossipRoute::Global
        } else if self.is_consensus_topic(topic) {
            GossipRoute::Consensus
        } else if self.is_zone_topic(topic) {
            GossipRoute::Zone
        } else {
            GossipRoute::Ignore
        }
    }
}

impl ServiceGossipHandler for ZephyrGossipHandler {
    /// The global topic and every registered zone or consensus topic.
    fn handles_topic(&self, topic: &str) -> (r: bool)
        ensures
            r == (topic@ == self.spec_global_topic() || self.spec_zone_topics().contains(topic@)
                || self.spec_consensus_topics().contains(topic@)),
    {
        str_eq(topic, self.global_topic.as_str()) || self.is_zone_topic(topic) || self.is_consensus_topic(
            topic,
        )
    }
}

/// The queue a message decoded on a consensus topic joins: proposals to
/// the proposal queue, everything else to the vote queue.
pub fn consensus_queue(msg: &ZephyrZoneMessage) -> (r: ConsensusQueue)
    ensures
        r == if msg is Proposal { ConsensusQueue::Proposals } else { ConsensusQueue::Votes },
{
    match msg {
        ZephyrZoneMessage::Proposal(_) => ConsensusQueue::Proposals,
        _ => ConsensusQueue::Votes,
    }
}

/// The zone of the first entry of `table` for `topic`, if any.
pub open spec fn zone_for_topic_spec(table: Seq<(Seq<char>, ZoneId)>, topic: Seq<char>) -> Option<ZoneId>
    decreases table.len(),
{
    if table.len() == 0 {
        None
    } else if table[0].0 == topic {
        Some(table[0].1)
    } else {
        zone_for_topic_spec(table.drop_first(), topic)
    }
}

/// The views of a topic table.
pub open spec fn topic_table(v: Seq<(String, ZoneId)>) -> Seq<(Seq<char>, ZoneId)> {
    v.map_values(|e: (String, ZoneId)| (e.0@, e.1))
}

/// The zone whose spend topic is `topic`, looked up in `table`.
pub fn zone_for_topic(table: &Vec<(String, ZoneId)>, topic: &str) -> (r: Option<ZoneId>)
    ensures
        r == zone_for_topic_spec(topic_table(table@), topic@),
{
    let mut i: usize = 0;
    assert(topic_table(table@).subrange(0, table@.len() as int) =~= topic_table(table@));
    while i < table.len()
        invariant
            i <= table@.len(),
            zone_for_topic_spec(topic_table(table@), topic@) == zone_for_topic_spec(
                topic_table(table@).subrange(i as int, table@.len() as int),
                topic@,
            ),
        decreases table@.len() - i,
    {
        let ghost rest = topic_table(table@).subrange(i as int, table@.len() as int);
        if str_eq(table[i].0.as_str(), topic) {
            assert(rest[0] == (table@[i as int].0@, table@[i as int].1));
            return Some(table[i].1);
        }
        assert(rest.drop_first() =~= topic_table(table@).subrange(i + 1, table@.len() as int));
        i += 1;
    }
    assert(topic_table(table@).subrange(i as int, table@.len() as int).len() == 0);
    None
}

/// The spend a message on a zone's spend topic submits, with its zone: a
/// spend submission on a topic of `table`; anything else submits nothing.
pub fn spend_submission(table: &Vec<(String, ZoneId)>, topic: &str, msg: ZephyrZoneMessage) -> (r: Option<(ZoneId, SpendTransaction)>)
    ensures
        match r {
            Some((z, tx)) => zone_for_topic_spec(topic_table(table@), topic@) == Some(z)
                && msg == ZephyrZoneMessage::SubmitSpend(tx),
            None => zone_for_topic_spec(topic_table(table@), topic@) is None || !(msg is SubmitSpend),
        },
{
    match zone_for_topic(table, topic) {
        Some(z) => match msg {
            ZephyrZoneMessage::SubmitSpend(tx) => Some((z, tx)),
            _ => None,
        },
        None => None,
    }
}

} // verus!
