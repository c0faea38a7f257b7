use zephyr_grid::config::ZephyrConfig;
use zephyr_grid::consensus::engine::{ConsensusAction, ZoneConsensus};
use zephyr_grid::consensus::pending_certs::PendingCertBuffer;
use zephyr_grid::types::{FinalityCertificate, ValidatorInfo};

fn sign(data: &[u8]) -> Vec<u8> {
    data.to_vec()
}

struct SimNode {
    engine: ZoneConsensus,
    pending: PendingCertBuffer,
}

/// A network of zone engines that exchange proposals, votes and
/// certificates round by round; isolated nodes hear nobody.
struct TestNetwork {
    nodes: Vec<SimNode>,
    isolated: Vec<bool>,
    timeout_ticks: u32,
}

impl TestNetwork {
    fn new(n: usize, zone_id: u32) -> Self {
        let committee: Vec<ValidatorInfo> = (0..n)
            .map(|i| {
                let mut id = [0u8; 32];
                id[0] = i as u8 + 1;
                ValidatorInfo { validator_id: id, pubkey: id, p2p_endpoint: format!("node-{i}") }
            })
            .collect();
        let config = ZephyrConfig {
            total_zones: 1,
            committee_size: n,
            quorum_threshold: n * 2 / 3 + 1,
            max_block_size: 64,
            round_timeout_ticks: 10,
            ..ZephyrConfig::default()
        };
        let nodes = committee
            .iter()
            .enumerate()
            .map(|(i, v)| SimNode {
                engine: ZoneConsensus::new(zone_id, 0, committee.clone(), v.validator_id, [0; 32], config, i),
                pending: PendingCertBuffer::new(64),
            })
            .collect();
        TestNetwork { nodes, isolated: vec![false; n], timeout_ticks: config.round_timeout_ticks }
    }

    fn partition(&mut self, ids: &[usize]) {
        for &i in ids {
            self.isolated[i] = true;
        }
    }

    fn heal(&mut self) {
        for x in self.isolated.iter_mut() {
            *x = false;
        }
    }

    fn groups(&self) -> Vec<Vec<usize>> {
        let mut groups = Vec::new();
        let connected: Vec<usize> = (0..self.nodes.len()).filter(|&i| !self.isolated[i]).collect();
        if !connected.is_empty() {
            groups.push(connected);
        }
        for i in 0..self.nodes.len() {
            if self.isolated[i] {
                groups.push(vec![i]);
            }
        }
        groups
    }

    fn deliver_cert(&mut self, j: usize, c: &FinalityCertificate) {
        let node = &mut self.nodes[j];
        if node.engine.apply_certificate(c) {
            let _ = node.engine.take_fork_recovery_used();
            let _ = node.pending.drain_applicable(&mut node.engine);
        } else if c.block_hash != *node.engine.parent_hash() {
            let _ = node.pending.push(c.clone());
        }
    }

    fn run_group_round(&mut self, group: &[usize]) {
        let mut proposals = Vec::new();
        for &i in group {
            if self.nodes[i].engine.is_leader() {
                if let Some(ConsensusAction::BroadcastProposal(b)) = self.nodes[i].engine.propose(vec![], sign) {
                    proposals.push(b);
                }
            }
        }
        let mut votes = Vec::new();
        for b in &proposals {
            for &j in group {
                if let Some(ConsensusAction::BroadcastVote(v)) = self.nodes[j].engine.vote_on_proposal(b, sign) {
                    votes.push(v);
                }
            }
        }
        let mut certs = Vec::new();
        for v in &votes {
            for &j in group {
                if let Some(ConsensusAction::BroadcastCertificate(c)) = self.nodes[j].engine.receive_vote(v.clone()) {
                    certs.push(c);
                }
            }
        }
        for c in &certs {
            for &j in group {
                self.deliver_cert(j, c);
            }
        }
        if certs.is_empty() {
            for &j in group {
                let timeout = self.timeout_ticks;
                let node = &mut self.nodes[j];
                loop {
                    node.engine.tick();
                    if node.engine.is_round_timed_out(timeout) {
                        let _ = node.engine.timeout_round();
                        if node.engine.consecutive_timeouts() >= 2 || node.pending.len() >= 8 {
                            let _ = node.engine.enable_fork_recovery();
                        }
                        break;
                    }
                }
            }
        }
    }

    fn run_rounds(&mut self, rounds: usize) {
        for _ in 0..rounds {
            for g in self.groups() {
                self.run_group_round(&g);
            }
        }
    }

    fn heights(&self) -> Vec<u64> {
        self.nodes.iter().map(|n| n.engine.height()).collect()
    }

    fn assert_converged(&self) {
        let h = self.nodes[0].engine.height();
        let p = *self.nodes[0].engine.parent_hash();
        for n in &self.nodes {
            assert_eq!(n.engine.height(), h, "heights differ: {:?}", self.heights());
            assert_eq!(*n.engine.parent_hash(), p, "heads differ");
        }
    }
}

#[test]
fn happy_path_5_nodes() {
    let mut net = TestNetwork::new(5, 0);
    net.run_rounds(20);
    net.assert_converged();
    assert_eq!(net.nodes[0].engine.height(), 20);
}

#[test]
fn one_node_partitioned_then_heals() {
    let mut net = TestNetwork::new(5, 0);
    net.partition(&[4]);
    net.run_rounds(30);

    let majority_height = net.nodes[0].engine.height();
    assert!(majority_height >= 5, "majority should make progress, got {majority_height}");
    assert_eq!(net.nodes[4].engine.height(), 0, "partitioned node should not advance");

    net.heal();
    net.nodes[4].engine.enable_fork_recovery();
    net.run_rounds(30);

    net.assert_converged();
    assert!(net.nodes[0].engine.height() > majority_height, "should keep advancing after heal");
}

#[test]
fn genesis_fork_recovery() {
    let mut net = TestNetwork::new(5, 0);

    net.partition(&[4]);
    net.run_rounds(1);
    assert_eq!(net.nodes[4].engine.height(), 0);

    net.heal();
    net.run_rounds(5);

    let heights = net.heights();
    assert!(heights.iter().all(|&h| h >= 1), "all nodes should advance after heal: {heights:?}");
}

#[test]
fn minority_catches_up_via_pending_certs() {
    let mut net = TestNetwork::new(5, 0);

    net.partition(&[3]);
    net.run_rounds(20);

    let majority_height = net.nodes[0].engine.height();
    assert!(majority_height >= 5, "majority should make progress, got {majority_height}");
    assert_eq!(net.nodes[3].engine.height(), 0);

    net.heal();
    net.nodes[3].engine.enable_fork_recovery();
    net.run_rounds(20);

    let h3 = net.nodes[3].engine.height();
    assert!(h3 >= majority_height, "node 3 should have caught up to at least {majority_height}, got {h3}");
}

#[test]
fn all_nodes_diverge_then_recover() {
    let mut net = TestNetwork::new(5, 0);

    net.partition(&[0, 1, 2, 3, 4]);
    for node in &mut net.nodes {
        for _ in 0..3 {
            node.engine.tick();
        }
    }
    let heights = net.heights();
    assert!(heights.iter().all(|&h| h == 0), "no progress while fully partitioned: {heights:?}");

    net.heal();
    for node in &mut net.nodes {
        node.engine.enable_fork_recovery();
    }
    net.run_rounds(20);

    net.assert_converged();
    assert!(net.nodes[0].engine.height() >= 5, "should have made substantial progress");
}
