//! The node's whole shared state and the control-plane operations on it.
//!
//! One `RaftNode` value gathers the singleton entities and the shared
//! tables that kernel handler and control loop both work on. The packet
//! handler (`crate::xdp`) reads and writes it per packet; the role state
//! machine (`crate::fsm`) drives it per tick.

use vstd::prelude::*;
use crate::codec::be64_bytes;
use crate::codec::encode_term;
use crate::config::ELECTION_TIMEOUT_JITTER_MAX_NS;
use crate::config::ELECTION_TIMEOUT_JITTER_MIN_NS;
use crate::config::ELECTION_TIMEOUT_NS;
use crate::config::HEARTBEAT_REQUEST_PORT;
use crate::config::QUORUM;
use crate::config::VOTE_REQUEST_PORT;
use crate::helpers::get_election_timeout_jitter_ns;
use crate::node::CurrentNode;
use crate::node::LeaderNode;
use crate::node::NodeState;
use crate::node::Vote;
use crate::rpc::Rpc;
use crate::rpc::build_rpcs;
use crate::rpc::rpc_targets;
use crate::tables::IpMap;
use crate::tables::TermSet;
use crate::tables::count_with_value;
use crate::tables::value_keys;

verus! {

/// Recorded votes are either refusals (0) or grants (1).
pub open spec fn vote_values_binary(m: Map<u32, u64>) -> bool {
    forall|k: u32| m.dom().contains(k) ==> m[k] == 0 || m[k] == 1
}

/// The whole shared state of one cluster member.
pub struct RaftNode {
    /// The node singleton: role, term, peers and vote record.
    pub current: CurrentNode,
    /// What was last heard from a leader.
    pub leader: LeaderNode,
    /// Terms this node has already voted in.
    pub vote_terms: TermSet,
    /// Votes received in the current election, per peer: 0 no, 1 yes.
    pub vote_results: IpMap,
    /// When a heartbeat was last sent to each follower, monotonic ns.
    pub followers: IpMap,
    /// Most recent heartbeat round-trip per follower, ns.
    pub heartbeat_latency: IpMap,
    /// Heartbeat rounds completed since this node became leader.
    pub cycle_counter: u64,
}

impl RaftNode {
    /// Every table is well formed, the vote record is consistent, and
    /// recorded votes are binary.
    pub open spec fn wf(self) -> bool {
        &&& self.current.vote.wf()
        &&& self.vote_terms.wf()
        &&& self.vote_results.wf()
        &&& self.followers.wf()
        &&& self.heartbeat_latency.wf()
        &&& vote_values_binary(self.vote_results@)
    }

    /// The freshly booted node: a follower at term 0 with cleared vote and
    /// empty tables, considering the leader just seen.
    pub fn initialise_node(peers: [u32; 2], now_ns: u64) -> (r: RaftNode)
        ensures
            r.wf(),
            r.current.state == NodeState::Follower,
            r.current.term == 0,
            r.current.peers@ == peers@,
            r.current.vote == Vote::spec_cleared(),
            r.leader.last_seen == now_ns,
            r.leader.source_addr_raw == 0,
            r.leader.term_id == 0,
            r.vote_terms@ == Set::<u64>::empty(),
            r.vote_results@ == Map::<u32, u64>::empty(),
            r.followers@ == Map::<u32, u64>::empty(),
            r.heartbeat_latency@ == Map::<u32, u64>::empty(),
            r.cycle_counter == 0,
    {
        RaftNode {
            current: CurrentNode {
                state: NodeState::Follower,
                term: 0,
                peers,
                vote: Vote::cleared(),
            },
            leader: LeaderNode { last_seen: now_ns, source_addr_raw: 0, term_id: 0 },
            vote_terms: TermSet::new(),
            vote_results: IpMap::new(),
            followers: IpMap::new(),
            heartbeat_latency: IpMap::new(),
            cycle_counter: 0,
        }
    }

    /// The node's role.
    pub fn get_current_state(&self) -> (r: NodeState)
        ensures
            r == self.current.state,
    {
        self.current.state
    }

    /// The node's term.
    pub fn current_term_id(&self) -> (r: u64)
        ensures
            r == self.current.term,
    {
        self.current.term
    }

    /// The node's term as the 8-byte big-endian RPC payload.
    pub fn current_term_id_bytes(&self) -> (r: Vec<u8>)
        ensures
            r@ == be64_bytes(self.current.term),
    {
        encode_term(self.current.term)
    }

    /// Milliseconds since the leader was last heard from.
    pub fn leader_last_seen(&self, now_ms: u64) -> (r: u64)
        requires
            now_ms >= self.leader.last_seen / 1_000_000,
        ensures
            r == now_ms - self.leader.last_seen / 1_000_000,
    {
        now_ms - self.leader.last_seen / 1_000_000
    }

    /// Pretend the leader was just seen. Run when this node stops leading,
    /// so that it is not the first to time out afterwards.
    pub fn update_leader_last_seen_time(&mut self, now_ns: u64)
        ensures
            *final(self) == (RaftNode {
                leader: (LeaderNode { last_seen: now_ns, source_addr_raw: 0, term_id: 0 }),
                ..*old(self)
            }),
    {
        self.leader = LeaderNode { last_seen: now_ns, source_addr_raw: 0, term_id: 0 };
    }

    /// Raise the term by one.
    pub fn increment_term_number(&mut self)
        requires
            old(self).current.term < u64::MAX,
        ensures
            *final(self) == (RaftNode {
                current: (CurrentNode {
                    term: (old(self).current.term + 1) as u64,
                    ..old(self).current
                }),
                ..*old(self)
            }),
    {
        self.current.term = self.current.term + 1;
    }

    /// Step down (or back) into the follower role.
    pub fn become_follower(&mut self)
        ensures
            *final(self) == (RaftNode {
                current: (CurrentNode { state: NodeState::Follower, ..old(self).current }),
                ..*old(self)
            }),
    {
        self.current.state = NodeState::Follower;
    }

    /// Stand for election. A follower has no vote in progress.
    pub fn become_candidate(&mut self)
        requires
            !old(self).current.vote.in_progress,
        ensures
            *final(self) == (RaftNode {
                current: (CurrentNode { state: NodeState::Candidate, ..old(self).current }),
                ..*old(self)
            }),
    {
        self.current.state = NodeState::Candidate;
        self.current.vote.in_progress = false;
    }

    /// Take the leader role.
    pub fn become_leader(&mut self)
        ensures
            *final(self) == (RaftNode {
                current: (CurrentNode { state: NodeState::Leader, ..old(self).current }),
                ..*old(self)
            }),
    {
        self.current.state = NodeState::Leader;
    }

    /// Open an election: the vote is running from `now_ns` with a jittered
    /// timeout.
    pub fn start_vote(&mut self, now_ns: u64)
        requires
            now_ns > 0,
        ensures
            final(self).current.vote.in_progress,
            final(self).current.vote.started_ts == now_ns,
            final(self).current.vote.ended_ts == old(self).current.vote.ended_ts,
            ELECTION_TIMEOUT_NS + ELECTION_TIMEOUT_JITTER_MIN_NS <= final(self).current.vote.election_timeout,
            final(self).current.vote.election_timeout < ELECTION_TIMEOUT_NS
                + ELECTION_TIMEOUT_JITTER_MAX_NS,
            final(self).current.vote.wf(),
            *final(self) == (RaftNode {
                current: (CurrentNode {
                    vote: final(self).current.vote,
                    ..old(self).current
                }),
                ..*old(self)
            }),
    {
        self.current.vote.in_progress = true;
        self.current.vote.started_ts = now_ns;
        let jitter = get_election_timeout_jitter_ns();
        self.current.vote.election_timeout = ELECTION_TIMEOUT_NS + jitter;
    }

    /// The timeout of the running election.
    pub fn get_election_timeout(&self) -> (r: u64)
        ensures
            r == self.current.vote.election_timeout,
    {
        self.current.vote.election_timeout
    }

    /// Has the running election outlived its timeout?
    pub fn election_timed_out(&self, now_ns: u64) -> (r: bool)
        requires
            self.current.vote.in_progress ==> self.current.vote.started_ts <= now_ns,
        ensures
            r == (self.current.vote.in_progress && now_ns - self.current.vote.started_ts
                > self.current.vote.election_timeout),
    {
        if !self.current.vote.in_progress {
            return false;
        }
        now_ns - self.current.vote.started_ts > self.current.vote.election_timeout
    }

    /// Close the running election as decided, recording when it ended.
    pub fn stop_vote(&mut self, now_ns: u64)
        requires
            now_ns >= old(self).current.vote.started_ts,
        ensures
            *final(self) == (RaftNode {
                current: (CurrentNode {
                    vote: (Vote {
                        in_progress: false,
                        ended_ts: now_ns,
                        ..old(self).current.vote
                    }),
                    ..old(self).current
                }),
                ..*old(self)
            }),
            final(self).current.vote.wf(),
    {
        self.current.vote.in_progress = false;
        self.current.vote.ended_ts = now_ns;
    }

    /// Abandon the running election.
    pub fn abort_vote(&mut self)
        ensures
            *final(self) == (RaftNode {
                current: (CurrentNode {
                    vote: (Vote { in_progress: false, started_ts: 0, ..old(self).current.vote }),
                    ..old(self).current
                }),
                ..*old(self)
            }),
            final(self).current.vote.wf(),
    {
        self.current.vote.in_progress = false;
        self.current.vote.started_ts = 0;
    }

    /// Clear the vote record completely.
    pub fn reset_vote_data(&mut self)
        ensures
            *final(self) == (RaftNode {
                current: (CurrentNode { vote: Vote::spec_cleared(), ..old(self).current }),
                ..*old(self)
            }),
            final(self).current.vote.wf(),
    {
        self.current.vote = Vote::cleared();
    }

    /// Clear every recorded vote of the current election: each peer's entry
    /// goes back to 0, so no grants remain counted.
    pub fn reset_vote_results(&mut self)
        requires
            old(self).vote_results.wf(),
        ensures
            final(self).vote_results.wf(),
            final(self).vote_results@.dom() == old(self).vote_results@.dom(),
            forall|k: u32|
                final(self).vote_results@.dom().contains(k) ==> final(self).vote_results@[k] == 0,
            vote_values_binary(final(self).vote_results@),
            count_with_value(final(self).vote_results@, 1) == 0,
            *final(self) == (RaftNode { vote_results: final(self).vote_results, ..*old(self) }),
    {
        self.vote_results.zero_all();
        proof {
            broadcast use vstd::set::axiom_set_empty_len;

            let m = self.vote_results@;
            assert(value_keys(m, 1) =~= Set::<u32>::empty());
        }
    }

    /// How long the last election ran.
    pub fn get_vote_duration(&self) -> (r: u64)
        requires
            self.current.vote.ended_ts >= self.current.vote.started_ts,
        ensures
            r == self.current.vote.ended_ts - self.current.vote.started_ts,
    {
        self.current.vote.ended_ts - self.current.vote.started_ts
    }

    /// Is an election running?
    pub fn vote_in_progress(&self) -> (r: bool)
        ensures
            r == self.current.vote.in_progress,
    {
        self.current.vote.in_progress
    }

    /// The two peer slots.
    pub fn get_raft_peers(&self) -> (r: [u32; 2])
        ensures
            r@ == self.current.peers@,
    {
        self.current.peers
    }

    /// Note that a heartbeat went out to `ip` at `ts`.
    pub fn insert_heartbeat_timestamp(&mut self, ip: u32, ts: u64)
        requires
            old(self).followers.wf(),
        ensures
            final(self).followers.wf(),
            final(self).followers@ == old(self).followers@.insert(ip, ts),
            *final(self) == (RaftNode { followers: final(self).followers, ..*old(self) }),
    {
        self.followers.insert(ip, ts);
    }

    /// The heartbeat round: one datagram per non-zero peer, to the
    /// heartbeat request port, carrying the node's term; each such peer's
    /// send time is recorded first.
    pub fn send_heartbeat_rpcs(&mut self, now_ns: u64) -> (r: Vec<Rpc>)
        requires
            old(self).followers.wf(),
        ensures
            r@.len() == rpc_targets(old(self).current.peers@).len(),
            forall|i: int|
                0 <= i < r@.len() ==> (#[trigger] r@[i]).dest_ip == rpc_targets(
                    old(self).current.peers@,
                )[i] && r@[i].dest_port == HEARTBEAT_REQUEST_PORT && r@[i].payload@ == be64_bytes(
                    old(self).current.term,
                ),
            final(self).followers.wf(),
            final(self).followers@ == ({
                let p0 = old(self).current.peers@[0];
                let p1 = old(self).current.peers@[1];
                if p0 != 0 && p1 != 0 {
                    old(self).followers@.insert(p0, now_ns).insert(p1, now_ns)
                } else if p0 != 0 {
                    old(self).followers@.insert(p0, now_ns)
                } else if p1 != 0 {
                    old(self).followers@.insert(p1, now_ns)
                } else {
                    old(self).followers@
                }
            }),
            *final(self) == (RaftNode { followers: final(self).followers, ..*old(self) }),
    {
        let rpcs = build_rpcs(&self.current.peers, self.current.term, HEARTBEAT_REQUEST_PORT);
        let p0 = self.current.peers[0];
        if p0 != 0 {
            self.followers.insert(p0, now_ns);
        }
        let p1 = self.current.peers[1];
        if p1 != 0 {
            self.followers.insert(p1, now_ns);
        }
        rpcs
    }

    /// The vote-request round: one datagram per non-zero peer, to the vote
    /// request port, carrying the node's term.
    pub fn send_request_vote_rpcs(&self) -> (r: Vec<Rpc>)
        ensures
            r@.len() == rpc_targets(self.current.peers@).len(),
            forall|i: int|
                0 <= i < r@.len() ==> (#[trigger] r@[i]).dest_ip == rpc_targets(
                    self.current.peers@,
                )[i] && r@[i].dest_port == VOTE_REQUEST_PORT && r@[i].payload@ == be64_bytes(
                    self.current.term,
                ),
    {
        build_rpcs(&self.current.peers, self.current.term, VOTE_REQUEST_PORT)
    }

    /// How many peers granted their vote in the current election.
    pub fn get_current_yes_votes_from_peers(&self) -> (r: u64)
        requires
            self.vote_results.wf(),
        ensures
            r == count_with_value(self.vote_results@, 1),
    {
        self.vote_results.count_value(1)
    }

    /// Quorum rule: this node's own vote plus the recorded grants reach the
    /// quorum.
    pub fn quorum_reached(&self) -> (r: bool)
        requires
            self.vote_results.wf(),
        ensures
            r == (1 + count_with_value(self.vote_results@, 1) >= QUORUM),
    {
        let yes = self.get_current_yes_votes_from_peers();
        yes >= QUORUM - 1
    }
}

} // verus!
