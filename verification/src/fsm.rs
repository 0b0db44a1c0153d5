//! The role state machine, one tick per call.
//!
//! Each tick takes the clock as an argument and returns what the caller
//! must do outside: datagrams to send and, for a leader, how long to sleep.
//! The caller loops: it dispatches on the role, performs the returned
//! actions, and calls the next tick.

use vstd::prelude::*;
use crate::codec::be64_bytes;
use crate::config::ELECTION_TIMEOUT_JITTER_MAX_NS;
use crate::config::ELECTION_TIMEOUT_JITTER_MIN_NS;
use crate::config::ELECTION_TIMEOUT_NS;
use crate::config::HEARTBEAT_REQUEST_PORT;
use crate::config::LEADER_COMMUNICATION_JITTER_MAX_MS;
use crate::config::LEADER_COMMUNICATION_JITTER_MIN_MS;
use crate::config::LEADER_COMMUNICATION_TIMEOUT_MS;
use crate::config::LEADER_HEARTBEAT_CYCLES_BEFORE_CRASH;
use crate::config::LEADER_HEARTBEAT_FREQUENCY_MS;
use crate::config::QUORUM;
use crate::config::VOTE_REQUEST_PORT;
use crate::helpers::get_leader_communication_jitter;
use crate::node::CurrentNode;
use crate::node::LeaderNode;
use crate::node::NodeState;
use crate::node::Vote;
use crate::rpc::Rpc;
use crate::rpc::rpc_targets;
use crate::state::RaftNode;
use crate::tables::count_with_value;

verus! {

/// Has the election that `n` is running outlived its timeout at `now_ns`?
pub open spec fn election_timed_out_at(n: RaftNode, now_ns: u64) -> bool {
    n.current.vote.in_progress && now_ns - n.current.vote.started_ts
        > n.current.vote.election_timeout
}

/// Quorum rule: the candidate's own vote plus the recorded grants reach the
/// quorum.
pub open spec fn quorum_reached_spec(n: RaftNode) -> bool {
    1 + count_with_value(n.vote_results@, 1) >= QUORUM
}

/// One follower tick: if the leader has been silent longer than the
/// jittered timeout, stand for election; otherwise change nothing.
pub fn follower(node: &mut RaftNode, now_ms: u64)
    requires
        now_ms >= old(node).leader.last_seen / 1_000_000,
        !old(node).current.vote.in_progress,
    ensures
        // either the tick saw no timeout — possible only while the silence
        // stays under the largest jittered bound — and changed nothing,
        // or the silence exceeded the smallest jittered bound and the node
        // stood for election
        (*final(node) == *old(node) && now_ms - old(node).leader.last_seen / 1_000_000
            <= LEADER_COMMUNICATION_TIMEOUT_MS + LEADER_COMMUNICATION_JITTER_MAX_MS - 1)
            || (*final(node) == (RaftNode {
            current: (CurrentNode { state: NodeState::Candidate, ..old(node).current }),
            ..*old(node)
        }) && now_ms - old(node).leader.last_seen / 1_000_000 > LEADER_COMMUNICATION_TIMEOUT_MS
            + LEADER_COMMUNICATION_JITTER_MIN_MS),
        now_ms - old(node).leader.last_seen / 1_000_000 > LEADER_COMMUNICATION_TIMEOUT_MS
            + LEADER_COMMUNICATION_JITTER_MAX_MS - 1 ==> final(node).current.state
            == NodeState::Candidate,
        now_ms - old(node).leader.last_seen / 1_000_000 <= LEADER_COMMUNICATION_TIMEOUT_MS
            + LEADER_COMMUNICATION_JITTER_MIN_MS ==> *final(node) == *old(node),
{
    let jitter = get_leader_communication_jitter();
    if node.leader_last_seen(now_ms) > LEADER_COMMUNICATION_TIMEOUT_MS + jitter {
        node.become_candidate();
    }
}

/// One candidate tick, as four cases.
///
/// With a vote running, not timed out, and quorum reached: the election is
/// won; the vote stops, the recorded votes are cleared, the node leads.
/// With no vote running: a new election opens; the term rises by one and a
/// vote request goes to every non-zero peer. With the vote timed out: the
/// election is abandoned and its records cleared. Otherwise nothing
/// changes. The returned datagrams are the vote requests of the second
/// case, empty in the others.
pub fn candidate(node: &mut RaftNode, now_ns: u64) -> (r: Vec<Rpc>)
    requires
        old(node).wf(),
        now_ns > 0,
        old(node).current.vote.in_progress ==> old(node).current.vote.started_ts <= now_ns,
        old(node).current.term < u64::MAX,
    ensures
        final(node).wf(),
        final(node).current.peers == old(node).current.peers,
        final(node).leader == old(node).leader,
        final(node).followers == old(node).followers,
        final(node).heartbeat_latency == old(node).heartbeat_latency,
        final(node).vote_terms == old(node).vote_terms,
        final(node).cycle_counter == old(node).cycle_counter,
        // won election
        old(node).current.vote.in_progress && !election_timed_out_at(*old(node), now_ns)
            && quorum_reached_spec(*old(node)) ==> final(node).current.state == NodeState::Leader
            && final(node).current.term == old(node).current.term
            && final(node).current.vote == (Vote {
            in_progress: false,
            started_ts: old(node).current.vote.started_ts,
            ended_ts: now_ns,
            election_timeout: old(node).current.vote.election_timeout,
        }) && count_with_value(final(node).vote_results@, 1) == 0
            && final(node).vote_results@.dom() == old(node).vote_results@.dom() && (forall|k: u32|
            final(node).vote_results@.dom().contains(k) ==> final(node).vote_results@[k] == 0)
            && r@.len() == 0,
        // new election
        !old(node).current.vote.in_progress ==> final(node).current.state
            == old(node).current.state && final(node).current.term == old(node).current.term + 1
            && final(node).current.vote.in_progress && final(node).current.vote.started_ts == now_ns
            && final(node).current.vote.ended_ts == 0 && ELECTION_TIMEOUT_NS
            + ELECTION_TIMEOUT_JITTER_MIN_NS <= final(node).current.vote.election_timeout
            < ELECTION_TIMEOUT_NS + ELECTION_TIMEOUT_JITTER_MAX_NS && final(node).vote_results
            == old(node).vote_results && r@.len() == rpc_targets(old(node).current.peers@).len(),
        !old(node).current.vote.in_progress ==> forall|i: int|
            0 <= i < r@.len() ==> (#[trigger] r@[i]).dest_ip == rpc_targets(
                old(node).current.peers@,
            )[i] && r@[i].dest_port == VOTE_REQUEST_PORT && r@[i].payload@ == be64_bytes(
                (old(node).current.term + 1) as u64,
            ),
        // timed out: abandon
        election_timed_out_at(*old(node), now_ns) ==> final(node).current.state
            == old(node).current.state && final(node).current.term == old(node).current.term
            && final(node).current.vote == Vote::spec_cleared() && count_with_value(
            final(node).vote_results@,
            1,
        ) == 0 && final(node).vote_results@.dom() == old(node).vote_results@.dom() && (forall|
            k: u32,
        |
            final(node).vote_results@.dom().contains(k) ==> final(node).vote_results@[k] == 0)
            && r@.len() == 0,
        // nothing to do
        old(node).current.vote.in_progress && !election_timed_out_at(*old(node), now_ns)
            && !quorum_reached_spec(*old(node)) ==> *final(node) == *old(node) && r@.len() == 0,
{
    if node.vote_in_progress() && !node.election_timed_out(now_ns) && node.quorum_reached() {
        node.stop_vote(now_ns);
        node.reset_vote_results();
        node.become_leader();
        return Vec::new();
    }
    if !node.vote_in_progress() {
        node.reset_vote_data();
        node.increment_term_number();
        let rpcs = node.send_request_vote_rpcs();
        node.start_vote(now_ns);
        return rpcs;
    }
    if node.election_timed_out(now_ns) {
        node.reset_vote_data();
        node.abort_vote();
        node.reset_vote_results();
    }
    Vec::new()
}

/// What one leader tick asks of its caller: send the datagrams, then sleep
/// `sleep_ms`; when `crashed` is set, follow the sleep with
/// [`leader_complete_crash`].
pub struct LeaderTick {
    pub rpcs: Vec<Rpc>,
    pub sleep_ms: u64,
    pub crashed: bool,
}

/// One leader tick: a heartbeat goes to every non-zero peer and the cycle
/// counter rises. Past the crash bound the tick asks the caller to sleep
/// through the leader timeout and then complete the simulated crash;
/// otherwise to sleep one heartbeat period.
pub fn leader(node: &mut RaftNode, now_ns: u64) -> (r: LeaderTick)
    requires
        old(node).wf(),
        old(node).cycle_counter < u64::MAX,
    ensures
        final(node).wf(),
        r.rpcs@.len() == rpc_targets(old(node).current.peers@).len(),
        forall|i: int|
            0 <= i < r.rpcs@.len() ==> (#[trigger] r.rpcs@[i]).dest_ip == rpc_targets(
                old(node).current.peers@,
            )[i] && r.rpcs@[i].dest_port == HEARTBEAT_REQUEST_PORT && r.rpcs@[i].payload@
                == be64_bytes(old(node).current.term),
        final(node).followers@ == ({
            let p0 = old(node).current.peers@[0];
            let p1 = old(node).current.peers@[1];
            if p0 != 0 && p1 != 0 {
                old(node).followers@.insert(p0, now_ns).insert(p1, now_ns)
            } else if p0 != 0 {
                old(node).followers@.insert(p0, now_ns)
            } else if p1 != 0 {
                old(node).followers@.insert(p1, now_ns)
            } else {
                old(node).followers@
            }
        }),
        final(node).cycle_counter == old(node).cycle_counter + 1,
        final(node).current == old(node).current,
        final(node).leader == old(node).leader,
        final(node).vote_terms == old(node).vote_terms,
        final(node).vote_results == old(node).vote_results,
        final(node).heartbeat_latency == old(node).heartbeat_latency,
        r.crashed == (old(node).cycle_counter + 1 > LEADER_HEARTBEAT_CYCLES_BEFORE_CRASH),
        r.crashed ==> r.sleep_ms == LEADER_COMMUNICATION_TIMEOUT_MS + 1,
        !r.crashed ==> r.sleep_ms == LEADER_HEARTBEAT_FREQUENCY_MS,
{
    let rpcs = node.send_heartbeat_rpcs(now_ns);
    node.cycle_counter = node.cycle_counter + 1;
    if node.cycle_counter > LEADER_HEARTBEAT_CYCLES_BEFORE_CRASH {
        LeaderTick { rpcs, sleep_ms: LEADER_COMMUNICATION_TIMEOUT_MS + 1, crashed: true }
    } else {
        LeaderTick { rpcs, sleep_ms: LEADER_HEARTBEAT_FREQUENCY_MS, crashed: false }
    }
}

/// Finish the simulated crash after the sleep: reset the cycle counter,
/// pretend the leader was just seen, and step down to follower.
pub fn leader_complete_crash(node: &mut RaftNode, now_ns: u64)
    ensures
        *final(node) == (RaftNode {
            current: (CurrentNode { state: NodeState::Follower, ..old(node).current }),
            leader: (LeaderNode { last_seen: now_ns, source_addr_raw: 0, term_id: 0 }),
            cycle_counter: 0,
            ..*old(node)
        }),
{
    node.cycle_counter = 0;
    node.update_leader_last_seen_time(now_ns);
    node.become_follower();
}

} // verus!
