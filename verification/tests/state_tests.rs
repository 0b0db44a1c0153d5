//! Node state operations, tables, quorum, admin routes, address parsing,
//! and the jitter ranges.

use raft_node::config::ELECTION_TIMEOUT_JITTER_MAX_NS;
use raft_node::config::ELECTION_TIMEOUT_JITTER_MIN_NS;
use raft_node::config::ELECTION_TIMEOUT_NS;
use raft_node::config::LEADER_COMMUNICATION_JITTER_MAX_MS;
use raft_node::config::LEADER_COMMUNICATION_JITTER_MIN_MS;
use raft_node::helpers::get_election_timeout_jitter_ns;
use raft_node::helpers::get_leader_communication_jitter;
use raft_node::helpers::ip_bytes_to_u32;
use raft_node::helpers::ip_string_to_u32;
use raft_node::node::NodeState;
use raft_node::routes::add_follower;
use raft_node::routes::delete_follower;
use raft_node::routes::list_followers;
use raft_node::state::RaftNode;
use raft_node::tables::IpMap;
use raft_node::tables::TermSet;
use raft_node::xdp::update_node_term;
use raft_node::xdp::voted_for_term;

#[test]
fn parse_valid_addresses() {
    assert_eq!(ip_string_to_u32("10.0.0.2"), Ok(0x0A00_0002));
    assert_eq!(ip_string_to_u32("255.255.255.255"), Ok(0xFFFF_FFFF));
    assert_eq!(ip_string_to_u32("0.0.0.0"), Ok(0));
    assert_eq!(ip_string_to_u32("192.168.1.10"), Ok(0xC0A8_010A));
    assert_eq!(ip_string_to_u32("010.0.0.1"), Ok(0x0A00_0001));
}

#[test]
fn parse_invalid_addresses() {
    assert_eq!(ip_string_to_u32(""), Err(()));
    assert_eq!(ip_string_to_u32("1.2.3"), Err(()));
    assert_eq!(ip_string_to_u32("1.2.3.4.5"), Err(()));
    assert_eq!(ip_string_to_u32("256.0.0.1"), Err(()));
    assert_eq!(ip_string_to_u32("1..2.3"), Err(()));
    assert_eq!(ip_string_to_u32("a.b.c.d"), Err(()));
    assert_eq!(ip_string_to_u32("1.2.3.4."), Err(()));
    assert_eq!(ip_string_to_u32("1000.1.1.1"), Err(()));
    assert_eq!(ip_bytes_to_u32(b"10.0.0."), Err(()));
}

#[test]
fn jitter_stays_in_range() {
    for _ in 0..200 {
        let j = get_election_timeout_jitter_ns();
        assert!(ELECTION_TIMEOUT_JITTER_MIN_NS <= j && j < ELECTION_TIMEOUT_JITTER_MAX_NS);
        let m = get_leader_communication_jitter();
        assert!(LEADER_COMMUNICATION_JITTER_MIN_MS <= m && m < LEADER_COMMUNICATION_JITTER_MAX_MS);
    }
}

#[test]
fn ip_map_basics() {
    let mut m = IpMap::new();
    assert_eq!(m.len(), 0);
    assert_eq!(m.get(1), None);
    m.insert(1, 10);
    m.insert(2, 20);
    m.insert(1, 11);
    assert_eq!(m.len(), 2);
    assert_eq!(m.get(1), Some(11));
    assert_eq!(m.get(2), Some(20));
    m.remove(1);
    assert_eq!(m.get(1), None);
    assert_eq!(m.len(), 1);
    m.zero_all();
    assert_eq!(m.get(2), Some(0));
    assert_eq!(m.count_value(0), 1);
    assert_eq!(m.count_value(20), 0);
}

#[test]
fn term_set_basics() {
    let mut t = TermSet::new();
    assert!(!t.contains(5));
    assert!(t.insert(5));
    assert!(t.contains(5));
    assert!(t.insert(5));
    assert_eq!(t.len(), 1);
    assert!(t.insert(6));
    assert_eq!(t.len(), 2);
}

#[test]
fn term_set_capacity() {
    let mut t = TermSet::new();
    for term in 0..(raft_node::config::VOTE_TERMS_CAPACITY as u64) {
        assert!(t.insert(term));
    }
    assert_eq!(t.len(), raft_node::config::VOTE_TERMS_CAPACITY);
    // the set is full: a new term is refused, a present one still succeeds
    assert!(!t.insert(u64::MAX));
    assert!(t.insert(0));
    assert_eq!(t.len(), raft_node::config::VOTE_TERMS_CAPACITY);
}

#[test]
fn quorum_counts_grants() {
    let mut node = RaftNode::initialise_node([0x0A00_0002, 0x0A00_0003], 1);
    assert_eq!(node.get_current_yes_votes_from_peers(), 0);
    assert!(!node.quorum_reached());
    node.vote_results.insert(0x0A00_0002, 0);
    assert!(!node.quorum_reached());
    node.vote_results.insert(0x0A00_0003, 1);
    assert_eq!(node.get_current_yes_votes_from_peers(), 1);
    assert!(node.quorum_reached());
    node.reset_vote_results();
    assert_eq!(node.get_current_yes_votes_from_peers(), 0);
    assert!(!node.quorum_reached());
}

#[test]
fn vote_bookkeeping() {
    let mut node = RaftNode::initialise_node([0, 0], 1);
    assert!(!node.vote_in_progress());
    node.start_vote(500);
    assert!(node.vote_in_progress());
    let timeout = node.get_election_timeout();
    assert!(ELECTION_TIMEOUT_NS <= timeout);
    assert!(!node.election_timed_out(500));
    assert!(node.election_timed_out(500 + timeout + 1));
    node.stop_vote(900);
    assert!(!node.vote_in_progress());
    assert_eq!(node.get_vote_duration(), 400);
    node.reset_vote_data();
    assert_eq!(node.get_vote_duration(), 0);
}

#[test]
fn term_updates() {
    let mut node = RaftNode::initialise_node([0, 0], 1);
    assert_eq!(node.current_term_id(), 0);
    node.increment_term_number();
    assert_eq!(node.current_term_id(), 1);
    update_node_term(&mut node, 42);
    assert_eq!(node.current_term_id(), 42);
    assert_eq!(node.current_term_id_bytes(), vec![0, 0, 0, 0, 0, 0, 0, 42]);
    assert!(!voted_for_term(&node, 42));
}

#[test]
fn role_transitions() {
    let mut node = RaftNode::initialise_node([0, 0], 1);
    assert_eq!(node.get_current_state(), NodeState::Follower);
    node.become_candidate();
    assert_eq!(node.get_current_state(), NodeState::Candidate);
    node.become_leader();
    assert_eq!(node.get_current_state(), NodeState::Leader);
    node.become_follower();
    assert_eq!(node.get_current_state(), NodeState::Follower);
}

#[test]
fn admin_routes() {
    let mut node = RaftNode::initialise_node([0, 0], 1);
    assert_eq!(add_follower(&mut node, "not-an-ip"), Err(()));
    assert_eq!(add_follower(&mut node, "10.0.0.9"), Ok(()));
    // followers holds the peer with send time 0; nothing answered yet
    assert_eq!(list_followers(&node).len(), 0);
    node.heartbeat_latency.insert(0x0A00_0009, 777);
    let listing = list_followers(&node);
    assert_eq!(listing.len(), 1);
    assert_eq!(listing[0].ip_raw, 0x0A00_0009);
    assert_eq!(listing[0].latency_ns, 777);
    assert_eq!(listing[0].last_seen_epoch, 0);
    assert_eq!(delete_follower(&mut node, "10.0.0.9"), Ok(()));
    assert_eq!(delete_follower(&mut node, "10.0.0.9"), Ok(()));
    assert_eq!(delete_follower(&mut node, "299.0.0.1"), Err(()));
}

#[test]
fn leader_last_seen_difference() {
    let mut node = RaftNode::initialise_node([0, 0], 5_000_000);
    assert_eq!(node.leader_last_seen(12), 7);
    node.update_leader_last_seen_time(9_000_000);
    assert_eq!(node.leader_last_seen(12), 3);
}
