//! Ports, timing constants and cluster parameters.

use vstd::prelude::*;

verus! {

/// UDP destination port of a vote request.
pub const VOTE_REQUEST_PORT: u16 = 28000;

/// UDP destination port of a refusing vote response.
pub const VOTE_RESPONSE_PORT_NO: u16 = 29000;

/// UDP destination port of a granting vote response.
pub const VOTE_RESPONSE_PORT_YES: u16 = 29001;

/// UDP destination port of a leader's heartbeat.
pub const HEARTBEAT_REQUEST_PORT: u16 = 27001;

/// UDP destination port of a follower's heartbeat acknowledgement.
pub const HEARTBEAT_RESPONSE_PORT: u16 = 27000;

/// Smallest number of votes, the candidate's own included, that wins an
/// election in the three-node cluster.
pub const QUORUM: u64 = 2;

/// Base election timeout, in nanoseconds.
pub const ELECTION_TIMEOUT_NS: u64 = 1_000_000_000;

/// Lower bound (inclusive) of the per-election timeout jitter, in nanoseconds.
pub const ELECTION_TIMEOUT_JITTER_MIN_NS: u64 = 100_000_000;

/// Upper bound (exclusive) of the per-election timeout jitter, in nanoseconds.
pub const ELECTION_TIMEOUT_JITTER_MAX_NS: u64 = 500_000_000;

/// How long a follower waits for leader traffic before standing for election,
/// in milliseconds, before jitter.
pub const LEADER_COMMUNICATION_TIMEOUT_MS: u64 = 1_000;

/// Lower bound (inclusive) of the leader-timeout jitter, in milliseconds.
pub const LEADER_COMMUNICATION_JITTER_MIN_MS: u64 = 10;

/// Upper bound (exclusive) of the leader-timeout jitter, in milliseconds.
pub const LEADER_COMMUNICATION_JITTER_MAX_MS: u64 = 300;

/// Pause between two heartbeat rounds of a leader, in milliseconds.
pub const LEADER_HEARTBEAT_FREQUENCY_MS: u64 = 100;

/// Number of heartbeat rounds a leader completes before it simulates a crash.
pub const LEADER_HEARTBEAT_CYCLES_BEFORE_CRASH: u64 = 50;

/// The control loop stops once the node's term reaches this bound.
pub const FINAL_TERM: u64 = 100;

/// Capacity of the voted-terms table.
pub const VOTE_TERMS_CAPACITY: usize = 8192;

/// Length of an Ethernet header, in bytes.
pub const ETH_HDR_LEN: usize = 14;

/// Length of an IPv4 header without options, in bytes.
pub const IPV4_HDR_LEN: usize = 20;

/// Length of a UDP header, in bytes.
pub const UDP_HDR_LEN: usize = 8;

/// Offset of the UDP payload in a frame: Ethernet, IPv4 and UDP headers.
pub const UDP_PAYLOAD_OFFSET: usize = ETH_HDR_LEN + IPV4_HDR_LEN + UDP_HDR_LEN;

} // verus!
