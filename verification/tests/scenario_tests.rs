//! End-to-end scenarios: the packet handler and the role state machine
//! driven together, as one node of a three-node cluster would run them.

use raft_node::codec::encode_term;
use raft_node::config::LEADER_COMMUNICATION_JITTER_MAX_MS;
use raft_node::config::LEADER_COMMUNICATION_TIMEOUT_MS;
use raft_node::config::LEADER_HEARTBEAT_CYCLES_BEFORE_CRASH;
use raft_node::config::LEADER_HEARTBEAT_FREQUENCY_MS;
use raft_node::frame::build_udp_frame;
use raft_node::fsm::candidate;
use raft_node::fsm::follower;
use raft_node::fsm::leader;
use raft_node::fsm::leader_complete_crash;
use raft_node::node::NodeState;
use raft_node::state::RaftNode;
use raft_node::xdp::raft_main;
use raft_node::xdp::update_node_term;
use raft_node::xdp::voted_for_term;
use raft_node::xdp::XdpAction;

const LOCAL_IP: u32 = 0x0A00_0001;
const PEER_A: u32 = 0x0A00_0002;
const PEER_B: u32 = 0x0A00_0003;

fn frame_from(src_ip: u32, src_port: u16, dst_port: u16, payload: Vec<u8>) -> Vec<u8> {
    let src_mac = vec![0xAA, 1, 2, 3, 4, 5];
    let dst_mac = vec![0xBB, 6, 7, 8, 9, 10];
    build_udp_frame(&src_mac, &dst_mac, src_ip, LOCAL_IP, src_port, dst_port, &payload)
}

fn dst_port_bytes(f: &[u8]) -> u16 {
    (f[36] as u16) * 256 + f[37] as u16
}

/// A lone follower times out and stands for election with term 1.
#[test]
fn lone_follower_times_out() {
    let mut node = RaftNode::initialise_node([PEER_A, PEER_B], 0);
    // both peers silent far beyond the largest jittered timeout
    let silent_ms = 2 * (LEADER_COMMUNICATION_TIMEOUT_MS + LEADER_COMMUNICATION_JITTER_MAX_MS);
    follower(&mut node, silent_ms);
    assert_eq!(node.get_current_state(), NodeState::Candidate);

    let rpcs = candidate(&mut node, 5_000);
    assert_eq!(node.current_term_id(), 1);
    assert_eq!(rpcs.len(), 2);
    assert_eq!(rpcs[0].dest_ip, PEER_A);
    assert_eq!(rpcs[1].dest_ip, PEER_B);
    for rpc in &rpcs {
        assert_eq!(rpc.dest_port, 28000);
        assert_eq!(rpc.payload, vec![0, 0, 0, 0, 0, 0, 0, 1]);
    }
}

/// A candidate with one granting peer reaches quorum 2 and becomes leader.
#[test]
fn wins_election() {
    let mut node = RaftNode::initialise_node([PEER_A, PEER_B], 0);
    follower(&mut node, 10_000);
    let _rpcs = candidate(&mut node, 5_000);

    // peer grants: a vote response lands on the YES port
    let mut f = frame_from(PEER_A, 28000, 29001, encode_term(1));
    let action = raft_main(&mut node, &mut f, 6_000);
    assert_eq!(action, XdpAction::Drop);

    candidate(&mut node, 7_000);
    assert_eq!(node.get_current_state(), NodeState::Leader);
    assert!(!node.vote_in_progress());
    assert_eq!(node.get_current_yes_votes_from_peers(), 0);
}

/// A vote request for a term already voted in is dropped without an answer.
#[test]
fn vote_denied_for_known_term() {
    let mut node = RaftNode::initialise_node([PEER_A, PEER_B], 0);
    // the first request for term 5 is answered and records the vote
    let mut first = frame_from(PEER_A, 51000, 28000, encode_term(5));
    assert_eq!(raft_main(&mut node, &mut first, 100), XdpAction::Tx);
    assert!(voted_for_term(&node, 5));

    let mut second = frame_from(PEER_B, 52000, 28000, encode_term(5));
    let copy = second.clone();
    assert_eq!(raft_main(&mut node, &mut second, 200), XdpAction::Drop);
    assert_eq!(second, copy);
}

/// A vote request with a term above the node's own is granted; the node's
/// term does not move.
#[test]
fn vote_granted_on_higher_term() {
    let mut node = RaftNode::initialise_node([PEER_A, PEER_B], 0);
    update_node_term(&mut node, 3);

    let mut f = frame_from(PEER_A, 51000, 28000, encode_term(7));
    let before = f.clone();
    assert_eq!(raft_main(&mut node, &mut f, 100), XdpAction::Tx);
    assert!(voted_for_term(&node, 7));
    assert_eq!(node.current_term_id(), 3);
    // reflected: granted on the YES port, addresses turned around
    assert_eq!(dst_port_bytes(&f), 29001);
    assert_eq!(&f[0..6], &before[6..12]);
    assert_eq!(&f[6..12], &before[0..6]);
    assert_eq!(&f[26..30], &before[30..34]);
    assert_eq!(&f[30..34], &before[26..30]);
    assert_eq!(&f[34..36], &before[34..36]);
    assert_eq!(&f[42..], &before[42..]);
}

/// An equal incoming term is refused: the reply leaves on the NO port.
#[test]
fn equal_term_is_refused() {
    let mut node = RaftNode::initialise_node([PEER_A, PEER_B], 0);
    update_node_term(&mut node, 5);
    let mut f = frame_from(PEER_A, 51000, 28000, encode_term(5));
    assert_eq!(raft_main(&mut node, &mut f, 100), XdpAction::Tx);
    assert_eq!(dst_port_bytes(&f), 29000);
}

/// A leader drops vote requests unanswered.
#[test]
fn leader_drops_vote_requests() {
    let mut node = RaftNode::initialise_node([PEER_A, PEER_B], 0);
    node.become_leader();
    let mut f = frame_from(PEER_A, 51000, 28000, encode_term(9));
    let copy = f.clone();
    assert_eq!(raft_main(&mut node, &mut f, 100), XdpAction::Drop);
    assert_eq!(f, copy);
    assert!(!voted_for_term(&node, 9));
}

/// A heartbeat request flips a candidate back to follower, adopts the
/// leader's term, refreshes the leader record and acknowledges in place.
#[test]
fn heartbeat_flips_candidate_to_follower() {
    let mut node = RaftNode::initialise_node([PEER_A, PEER_B], 0);
    follower(&mut node, 10_000);
    candidate(&mut node, 5_000);
    update_node_term(&mut node, 10);
    assert!(node.vote_in_progress());

    let mut f = frame_from(PEER_B, 40000, 27001, encode_term(12));
    let action = raft_main(&mut node, &mut f, 8_000);
    assert_eq!(action, XdpAction::Tx);
    assert_eq!(node.get_current_state(), NodeState::Follower);
    assert_eq!(node.current_term_id(), 12);
    assert!(!node.vote_in_progress());
    assert_eq!(node.leader.last_seen, 8_000);
    assert_eq!(node.leader.source_addr_raw, PEER_B);
    assert_eq!(node.leader.term_id, 12);
    assert_eq!(dst_port_bytes(&f), 27000);
}

/// A heartbeat request without an 8-byte term passes through unhandled.
#[test]
fn heartbeat_without_term_passes() {
    let mut node = RaftNode::initialise_node([PEER_A, PEER_B], 0);
    let mut f = frame_from(PEER_B, 40000, 27001, vec![1, 2, 3]);
    let copy = f.clone();
    assert_eq!(raft_main(&mut node, &mut f, 100), XdpAction::Pass);
    assert_eq!(f, copy);
    assert_eq!(node.get_current_state(), NodeState::Follower);
}

/// A heartbeat response from a known follower records the round trip.
#[test]
fn heartbeat_response_records_latency() {
    let mut node = RaftNode::initialise_node([PEER_A, PEER_B], 0);
    node.insert_heartbeat_timestamp(PEER_A, 1_000);
    let mut f = frame_from(PEER_A, 27001, 27000, encode_term(4));
    assert_eq!(raft_main(&mut node, &mut f, 1_450), XdpAction::Drop);
    assert_eq!(node.heartbeat_latency.get(PEER_A), Some(450));

    // an unknown sender leaves no trace
    let mut g = frame_from(PEER_B, 27001, 27000, encode_term(4));
    assert_eq!(raft_main(&mut node, &mut g, 1_500), XdpAction::Drop);
    assert_eq!(node.heartbeat_latency.get(PEER_B), None);
}

/// After enough heartbeat rounds the leader simulates a crash: it sleeps
/// through the leader timeout, refreshes the leader record and steps down.
#[test]
fn leader_simulates_crash() {
    let mut node = RaftNode::initialise_node([PEER_A, 0], 0);
    node.become_leader();
    let mut crashed = false;
    let mut now: u64 = 1_000;
    for _ in 0..(LEADER_HEARTBEAT_CYCLES_BEFORE_CRASH + 1) {
        let tick = leader(&mut node, now);
        // empty slots are skipped in every round
        assert_eq!(tick.rpcs.len(), 1);
        assert_eq!(tick.rpcs[0].dest_ip, PEER_A);
        assert_eq!(tick.rpcs[0].dest_port, 27001);
        crashed = tick.crashed;
        if crashed {
            assert_eq!(tick.sleep_ms, LEADER_COMMUNICATION_TIMEOUT_MS + 1);
            break;
        }
        assert_eq!(tick.sleep_ms, LEADER_HEARTBEAT_FREQUENCY_MS);
        now += 1_000;
    }
    assert!(crashed);
    leader_complete_crash(&mut node, 99_000);
    assert_eq!(node.get_current_state(), NodeState::Follower);
    assert_eq!(node.leader.last_seen, 99_000);
    assert_eq!(node.cycle_counter, 0);
}

/// Empty peer slots are skipped when a candidate asks for votes.
#[test]
fn zero_peer_slots_are_skipped() {
    let mut node = RaftNode::initialise_node([0, PEER_B], 0);
    follower(&mut node, 10_000);
    let rpcs = candidate(&mut node, 5_000);
    assert_eq!(rpcs.len(), 1);
    assert_eq!(rpcs[0].dest_ip, PEER_B);

    let mut lonely = RaftNode::initialise_node([0, 0], 0);
    follower(&mut lonely, 10_000);
    let none = candidate(&mut lonely, 5_000);
    assert_eq!(none.len(), 0);
}

/// An aborted election clears the recorded votes and keeps the node a
/// candidate; the next election runs with a higher term.
#[test]
fn election_timeout_aborts_and_term_rises() {
    let mut node = RaftNode::initialise_node([PEER_A, PEER_B], 0);
    follower(&mut node, 10_000);
    candidate(&mut node, 5_000);
    assert_eq!(node.current_term_id(), 1);
    let timeout = node.get_election_timeout();

    // a refusal arrives; no quorum
    let mut f = frame_from(PEER_A, 28000, 29000, encode_term(1));
    raft_main(&mut node, &mut f, 6_000);
    assert_eq!(node.get_current_yes_votes_from_peers(), 0);

    // far past the timeout the election is abandoned
    candidate(&mut node, 5_000 + timeout + 1);
    assert_eq!(node.get_current_state(), NodeState::Candidate);
    assert!(!node.vote_in_progress());
    assert_eq!(node.get_current_yes_votes_from_peers(), 0);

    // the next tick opens the next election one term up
    candidate(&mut node, 10_000 + timeout);
    assert_eq!(node.current_term_id(), 2);
    assert!(node.vote_in_progress());
}

/// Frames that are not UDP Raft traffic pass or abort without touching the
/// node.
#[test]
fn unrelated_traffic() {
    let mut node = RaftNode::initialise_node([PEER_A, PEER_B], 0);
    // not IPv4
    let mut arp = vec![0u8; 40];
    arp[12] = 0x08;
    arp[13] = 0x06;
    assert_eq!(raft_main(&mut node, &mut arp, 1), XdpAction::Pass);
    // too short for the headers
    let mut short = vec![0u8; 20];
    short[12] = 0x08;
    short[13] = 0x00;
    assert_eq!(raft_main(&mut node, &mut short, 1), XdpAction::Aborted);
    // an unrelated UDP port
    let mut dns = frame_from(PEER_A, 5353, 53, vec![0; 12]);
    assert_eq!(raft_main(&mut node, &mut dns, 1), XdpAction::Pass);
    assert_eq!(node.get_current_state(), NodeState::Follower);
    assert_eq!(node.current_term_id(), 0);
}
