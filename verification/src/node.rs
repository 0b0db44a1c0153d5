//! The entities both planes share: the node singleton, its vote bookkeeping,
//! and the last-seen leader record.

use vstd::prelude::*;

verus! {

/// Role of a node in the cluster.
#[derive(Copy, Clone, Debug, PartialEq, Eq, Structural)]
pub enum NodeState {
    Follower,
    Candidate,
    Leader,
}

impl Default for NodeState {
    /// A freshly booted node is a follower.
    fn default() -> (r: Self)
        ensures
            r == NodeState::Follower,
    {
        NodeState::Follower
    }
}

/// Bookkeeping of the election this node is running, embedded in
/// [`CurrentNode`]. Timestamps are monotonic nanoseconds.
#[derive(Copy, Clone, Debug, PartialEq, Eq, Structural)]
pub struct Vote {
    pub in_progress: bool,
    pub started_ts: u64,
    pub ended_ts: u64,
    pub election_timeout: u64,
}

impl Vote {
    /// A running vote has a start time and a timeout; a finished one either
    /// is fully cleared or ended no earlier than it started.
    pub open spec fn wf(self) -> bool {
        &&& self.in_progress ==> self.started_ts > 0 && self.election_timeout > 0
        &&& !self.in_progress ==> (self.started_ts == 0 && self.ended_ts == 0
            && self.election_timeout == 0) || self.ended_ts >= self.started_ts
    }

    /// The all-zero vote record.
    pub open spec fn spec_cleared() -> Vote {
        Vote { in_progress: false, started_ts: 0, ended_ts: 0, election_timeout: 0 }
    }

    /// Build the all-zero vote record.
    pub fn cleared() -> (r: Vote)
        ensures
            r == Vote::spec_cleared(),
    {
        Vote { in_progress: false, started_ts: 0, ended_ts: 0, election_timeout: 0 }
    }
}

/// The node singleton: role, election term, the two peer slots (0 marks an
/// empty slot) and the vote record.
#[derive(Copy, Clone, Debug)]
pub struct CurrentNode {
    pub state: NodeState,
    pub term: u64,
    pub peers: [u32; 2],
    pub vote: Vote,
}

/// What this node last heard from a leader: a monotonic timestamp, the
/// leader's IPv4 address in host order, and the term it announced.
#[derive(Copy, Clone, Debug)]
pub struct LeaderNode {
    pub last_seen: u64,
    pub source_addr_raw: u32,
    pub term_id: u64,
}

/// The invariant every node value keeps (the vote record is well-formed).
pub proof fn lemma_vote_invariant(v: Vote)
    requires
        v.wf(),
        v.in_progress,
    ensures
        v.started_ts != 0,
        v.election_timeout != 0,
{
}

} // verus!
