//! The data-plane packet handler.
//!
//! Each inbound frame is classified by (IPv4, UDP, destination port) into a
//! Raft event; the handler updates the shared state and either passes the
//! frame on, drops it, or reflects it in place as the response and asks for
//! transmission. The whole decision is the spec function [`xdp_decision`];
//! the handler is proved to take exactly that decision and to change
//! exactly the state the event calls for.

use vstd::prelude::*;
use crate::config::HEARTBEAT_REQUEST_PORT;
use crate::config::HEARTBEAT_RESPONSE_PORT;
use crate::config::VOTE_REQUEST_PORT;
use crate::config::VOTE_RESPONSE_PORT_NO;
use crate::config::VOTE_RESPONSE_PORT_YES;
use crate::config::VOTE_TERMS_CAPACITY;
use crate::frame::dst_port_of;
use crate::frame::frame_term;
use crate::frame::ip_proto;
use crate::frame::is_ipv4;
use crate::frame::is_term_in_payload;
use crate::frame::parse_term_in_payload;
use crate::frame::read_dst_port;
use crate::frame::read_src_ip;
use crate::frame::reflect_frame;
use crate::frame::reflected;
use crate::frame::src_ip_of;
use crate::node::CurrentNode;
use crate::node::LeaderNode;
use crate::node::NodeState;
use crate::node::Vote;
use crate::state::RaftNode;

verus! {

/// What the handler tells the driver to do with the frame.
#[derive(Copy, Clone, Debug, PartialEq, Eq, Structural)]
pub enum XdpAction {
    /// Let the frame continue up the stack.
    Pass,
    /// Discard the frame.
    Drop,
    /// Transmit the rewritten frame back out of the same interface.
    Tx,
    /// Signal a handler failure to the driver.
    Aborted,
}

/// Does the frame carry the UDP event of the given destination port?
pub open spec fn is_udp_event(f: Seq<u8>, port: u16) -> bool {
    is_ipv4(f) && f.len() >= 42 && ip_proto(f) == 17 && dst_port_of(f) == port
}

/// The port of the vote response: granted exactly when the incoming term is
/// above the node's own.
pub open spec fn vote_response_port(n: RaftNode, f: Seq<u8>) -> u16 {
    if frame_term(f) > n.current.term {
        VOTE_RESPONSE_PORT_YES
    } else {
        VOTE_RESPONSE_PORT_NO
    }
}

/// The port a transmitted response leaves with.
pub open spec fn response_port(n: RaftNode, f: Seq<u8>) -> u16 {
    if dst_port_of(f) == VOTE_REQUEST_PORT {
        vote_response_port(n, f)
    } else {
        HEARTBEAT_RESPONSE_PORT
    }
}

/// The decision the handler takes on a frame, given the node's state.
pub open spec fn xdp_decision(n: RaftNode, f: Seq<u8>) -> XdpAction {
    if f.len() < 14 {
        XdpAction::Aborted
    } else if !is_ipv4(f) {
        XdpAction::Pass
    } else if f.len() < 42 {
        XdpAction::Aborted
    } else if ip_proto(f) == 6 {
        XdpAction::Pass
    } else if ip_proto(f) != 17 {
        XdpAction::Aborted
    } else if dst_port_of(f) == VOTE_REQUEST_PORT {
        if n.current.state == NodeState::Leader {
            XdpAction::Drop
        } else if f.len() != 50 {
            XdpAction::Drop
        } else if n.vote_terms@.contains(frame_term(f) as u64) {
            XdpAction::Drop
        } else if n.vote_terms@.len() >= VOTE_TERMS_CAPACITY {
            XdpAction::Drop
        } else {
            XdpAction::Tx
        }
    } else if dst_port_of(f) == VOTE_RESPONSE_PORT_YES || dst_port_of(f) == VOTE_RESPONSE_PORT_NO {
        XdpAction::Drop
    } else if dst_port_of(f) == HEARTBEAT_REQUEST_PORT {
        if f.len() != 50 {
            XdpAction::Pass
        } else {
            XdpAction::Tx
        }
    } else if dst_port_of(f) == HEARTBEAT_RESPONSE_PORT {
        XdpAction::Drop
    } else {
        XdpAction::Pass
    }
}

/// The node's role, as the handler reads it.
pub fn get_current_node_state(node: &RaftNode) -> (r: NodeState)
    ensures
        r == node.current.state,
{
    node.current.state
}

/// The node's term, as the handler reads it.
pub fn current_node_term(node: &RaftNode) -> (r: u64)
    ensures
        r == node.current.term,
{
    node.current.term
}

/// Has this node already voted in `term`?
pub fn voted_for_term(node: &RaftNode, term: u64) -> (r: bool)
    requires
        node.vote_terms.wf(),
    ensures
        r == node.vote_terms@.contains(term),
{
    node.vote_terms.contains(term)
}

/// Fall back to the follower role and clear the vote record.
pub fn become_follower(node: &mut RaftNode)
    ensures
        *final(node) == (RaftNode {
            current: (CurrentNode {
                state: NodeState::Follower,
                vote: Vote::spec_cleared(),
                ..old(node).current
            }),
            ..*old(node)
        }),
{
    node.current.state = NodeState::Follower;
    node.current.vote = Vote::cleared();
}

/// Record which leader was just heard, at what time, with which term.
pub fn update_leader_metadata(node: &mut RaftNode, source_addr: u32, term: u64, now_ns: u64)
    ensures
        *final(node) == (RaftNode {
            leader: (LeaderNode { last_seen: now_ns, source_addr_raw: source_addr, term_id: term }),
            ..*old(node)
        }),
{
    node.leader = LeaderNode { last_seen: now_ns, source_addr_raw: source_addr, term_id: term };
}

/// Overwrite the node's term with the incoming one.
pub fn update_node_term(node: &mut RaftNode, incoming_term: u64)
    ensures
        *final(node) == (RaftNode {
            current: (CurrentNode { term: incoming_term, ..old(node).current }),
            ..*old(node)
        }),
{
    node.current.term = incoming_term;
}

/// The packet handler. Classifies the frame, updates the shared state as
/// the event demands, and returns what the driver should do; on `Tx` the
/// frame has been reflected in place.
pub fn raft_main(node: &mut RaftNode, frame: &mut Vec<u8>, now_ns: u64) -> (r: XdpAction)
    requires
        old(node).wf(),
        forall|k: u32|
            old(node).followers@.dom().contains(k) ==> old(node).followers@[k] <= now_ns,
    ensures
        final(node).wf(),
        r == xdp_decision(*old(node), old(frame)@),
        r == XdpAction::Tx ==> final(frame)@ == reflected(
            old(frame)@,
            response_port(*old(node), old(frame)@),
        ),
        r != XdpAction::Tx ==> final(frame)@ == old(frame)@,
        old(node).vote_terms@.subset_of(final(node).vote_terms@),
        // vote request answered: the term is recorded, nothing else moves
        is_udp_event(old(frame)@, VOTE_REQUEST_PORT) && r == XdpAction::Tx ==> final(node).vote_terms@ == old(node).vote_terms@.insert(frame_term(old(frame)@) as u64) && *final(node) == (RaftNode { vote_terms: final(node).vote_terms, ..*old(node) }),
        // vote request refused or out of capacity: nothing moves
        is_udp_event(old(frame)@, VOTE_REQUEST_PORT) && r != XdpAction::Tx ==> *final(node)
            == *old(node),
        // vote response recorded only while standing as candidate
        is_udp_event(old(frame)@, VOTE_RESPONSE_PORT_YES) ==> *final(node) == (if old(node).current.state == NodeState::Candidate {
            (RaftNode { vote_results: final(node).vote_results, ..*old(node) })
        } else {
            *old(node)
        }),
        is_udp_event(old(frame)@, VOTE_RESPONSE_PORT_YES) && old(node).current.state
            == NodeState::Candidate ==> final(node).vote_results@ == old(node).vote_results@.insert(src_ip_of(old(frame)@) as u32, 1),
        is_udp_event(old(frame)@, VOTE_RESPONSE_PORT_NO) ==> *final(node) == (if old(node).current.state == NodeState::Candidate {
            (RaftNode { vote_results: final(node).vote_results, ..*old(node) })
        } else {
            *old(node)
        }),
        is_udp_event(old(frame)@, VOTE_RESPONSE_PORT_NO) && old(node).current.state
            == NodeState::Candidate ==> final(node).vote_results@ == old(node).vote_results@.insert(src_ip_of(old(frame)@) as u32, 0),
        // heartbeat request with a term: follower afterwards, term taken
        // over, leader record refreshed, frame reflected
        is_udp_event(old(frame)@, HEARTBEAT_REQUEST_PORT) && old(frame)@.len() == 50 ==> *final(node) == (RaftNode {
            current: (CurrentNode {
                state: NodeState::Follower,
                term: frame_term(old(frame)@) as u64,
                vote: (if old(node).current.state != NodeState::Follower {
                    Vote::spec_cleared()
                } else {
                    old(node).current.vote
                }),
                ..old(node).current
            }),
            leader: (LeaderNode {
                last_seen: now_ns,
                source_addr_raw: src_ip_of(old(frame)@) as u32,
                term_id: frame_term(old(frame)@) as u64,
            }),
            ..*old(node)
        }),
        is_udp_event(old(frame)@, HEARTBEAT_REQUEST_PORT) && old(frame)@.len() != 50 ==> *final(node) == *old(node),
        // heartbeat response from a known follower: its round trip is noted
        is_udp_event(old(frame)@, HEARTBEAT_RESPONSE_PORT) ==> *final(node) == (if old(node).followers@.dom().contains(src_ip_of(old(frame)@) as u32) {
            (RaftNode { heartbeat_latency: final(node).heartbeat_latency, ..*old(node) })
        } else {
            *old(node)
        }),
        is_udp_event(old(frame)@, HEARTBEAT_RESPONSE_PORT) && old(node).followers@.dom().contains(
            src_ip_of(old(frame)@) as u32,
        ) ==> final(node).heartbeat_latency@ == old(node).heartbeat_latency@.insert(
            src_ip_of(old(frame)@) as u32,
            (now_ns - old(node).followers@[src_ip_of(old(frame)@) as u32]) as u64,
        ),
        // everything else leaves the node as it was
        !(is_udp_event(old(frame)@, VOTE_REQUEST_PORT) || is_udp_event(
            old(frame)@,
            VOTE_RESPONSE_PORT_YES,
        ) || is_udp_event(old(frame)@, VOTE_RESPONSE_PORT_NO) || is_udp_event(
            old(frame)@,
            HEARTBEAT_REQUEST_PORT,
        ) || is_udp_event(old(frame)@, HEARTBEAT_RESPONSE_PORT)) ==> *final(node) == *old(node),
{
    if frame.len() < 14 {
        return XdpAction::Aborted;
    }
    if !(frame[12] == 0x08 && frame[13] == 0x00) {
        return XdpAction::Pass;
    }
    if frame.len() < 42 {
        return XdpAction::Aborted;
    }
    let proto = frame[23];
    if proto == 6 {
        return XdpAction::Pass;
    }
    if proto != 17 {
        return XdpAction::Aborted;
    }
    let dest_port = read_dst_port(frame);
    let source_addr = read_src_ip(frame);
    if dest_port == VOTE_REQUEST_PORT {
        // A leader drops every vote request.
        if get_current_node_state(node) == NodeState::Leader {
            return XdpAction::Drop;
        }
        // Only a payload of exactly one term is a vote request.
        if !is_term_in_payload(frame) {
            return XdpAction::Drop;
        }
        let incoming_term_number = match parse_term_in_payload(frame) {
            Ok(x) => x,
            Err(_) => {
                return XdpAction::Drop;
            },
        };
        // One vote per term, ever.
        if voted_for_term(node, incoming_term_number) {
            return XdpAction::Drop;
        }
        let current_term = current_node_term(node);
        let vote_response: u16 = if incoming_term_number > current_term {
            VOTE_RESPONSE_PORT_YES
        } else {
            VOTE_RESPONSE_PORT_NO
        };
        // Record the term before answering; a full table drops the packet.
        if !node.vote_terms.insert(incoming_term_number) {
            return XdpAction::Drop;
        }
        reflect_frame(frame, vote_response);
        return XdpAction::Tx;
    }
    if dest_port == VOTE_RESPONSE_PORT_YES {
        if get_current_node_state(node) == NodeState::Candidate {
            node.vote_results.insert(source_addr, 1);
        }
        return XdpAction::Drop;
    }
    if dest_port == VOTE_RESPONSE_PORT_NO {
        if get_current_node_state(node) == NodeState::Candidate {
            node.vote_results.insert(source_addr, 0);
        }
        return XdpAction::Drop;
    }
    if dest_port == HEARTBEAT_REQUEST_PORT {
        // Without a term the packet is not ours to answer.
        if !is_term_in_payload(frame) {
            return XdpAction::Pass;
        }
        let incoming_term_number = match parse_term_in_payload(frame) {
            Ok(x) => x,
            Err(_) => {
                return XdpAction::Pass;
            },
        };
        if get_current_node_state(node) != NodeState::Follower {
            become_follower(node);
        }
        update_node_term(node, incoming_term_number);
        update_leader_metadata(node, source_addr, incoming_term_number, now_ns);
        reflect_frame(frame, HEARTBEAT_RESPONSE_PORT);
        return XdpAction::Tx;
    }
    if dest_port == HEARTBEAT_RESPONSE_PORT {
        match node.followers.get(source_addr) {
            Some(heartbeat_request_timestamp) => {
                let heartbeat_request_latency = now_ns - heartbeat_request_timestamp;
                node.heartbeat_latency.insert(source_addr, heartbeat_request_latency);
            },
            None => {},
        }
        return XdpAction::Drop;
    }
    XdpAction::Pass
}

/// A node in the leader role drops every vote request it receives; the
/// handler then leaves its state untouched.
pub proof fn lemma_leader_drops_vote_requests(n: RaftNode, f: Seq<u8>)
    requires
        is_udp_event(f, VOTE_REQUEST_PORT),
        n.current.state == NodeState::Leader,
    ensures
        xdp_decision(n, f) == XdpAction::Drop,
{
}

/// At most one granting vote response per term: once a term stands in the
/// voted set — as it does after any answered vote request for it — every
/// further vote request for the same term is dropped without a reply.
pub proof fn lemma_one_vote_per_term(n0: RaftNode, n1: RaftNode, f: Seq<u8>, g: Seq<u8>)
    requires
        is_udp_event(f, VOTE_REQUEST_PORT),
        xdp_decision(n0, f) == XdpAction::Tx,
        n1.vote_terms@ == n0.vote_terms@.insert(frame_term(f) as u64),
        is_udp_event(g, VOTE_REQUEST_PORT),
        frame_term(g) == frame_term(f),
        g.len() == 50,
    ensures
        xdp_decision(n1, g) == XdpAction::Drop,
{
    assert(n1.vote_terms@.contains(frame_term(g) as u64));
}

/// Equal incoming and local term refuse the vote: only a strictly higher
/// term is granted.
pub proof fn lemma_equal_term_is_refused(n: RaftNode, f: Seq<u8>)
    requires
        frame_term(f) == n.current.term,
    ensures
        vote_response_port(n, f) == VOTE_RESPONSE_PORT_NO,
{
}

} // verus!
