//! The admin operations on the follower table: list, add, remove.
//!
//! The HTTP surface around them stays outside; these functions take the
//! dotted address text and the node, and fix exactly which table change
//! each request makes. An invalid address changes nothing and reports the
//! error.

use vstd::prelude::*;
use vstd::string::StringSliceAdditionalSpecFns;
use crate::helpers::ip_string_to_u32;
use crate::helpers::ip_text_value;
use crate::helpers::valid_ip_text;
use crate::state::RaftNode;

verus! {

/// One row of the follower listing: the peer, its last recorded heartbeat
/// round trip, and when a heartbeat was last sent to it (0 when none was).
#[derive(Copy, Clone, Debug, PartialEq, Eq, Structural)]
pub struct FollowerState {
    pub ip_raw: u32,
    pub latency_ns: u64,
    pub last_seen_epoch: u64,
}

/// Add a follower: the address joins the follower table with send time 0.
/// An invalid address is refused and nothing changes.
pub fn add_follower(node: &mut RaftNode, ip_str: &str) -> (r: Result<(), ()>)
    requires
        old(node).followers.wf(),
    ensures
        final(node).followers.wf(),
        valid_ip_text(ip_str.spec_bytes()) ==> r == Ok::<(), ()>(()) && final(node).followers@
            == old(node).followers@.insert(ip_text_value(ip_str.spec_bytes()) as u32, 0) && *final(node) == (RaftNode { followers: final(node).followers, ..*old(node) }),
        !valid_ip_text(ip_str.spec_bytes()) ==> r == Err::<(), ()>(()) && *final(node) == *old(node),
{
    let ip_address = match ip_string_to_u32(ip_str) {
        Ok(x) => x,
        Err(_) => {
            return Err(());
        },
    };
    node.followers.insert(ip_address, 0);
    Ok(())
}

/// Remove a follower. An invalid address is refused and nothing changes;
/// removing an absent follower succeeds without change.
pub fn delete_follower(node: &mut RaftNode, ip_str: &str) -> (r: Result<(), ()>)
    requires
        old(node).followers.wf(),
    ensures
        final(node).followers.wf(),
        valid_ip_text(ip_str.spec_bytes()) ==> r == Ok::<(), ()>(()) && final(node).followers@
            == old(node).followers@.remove(ip_text_value(ip_str.spec_bytes()) as u32) && *final(node) == (RaftNode { followers: final(node).followers, ..*old(node) }),
        !valid_ip_text(ip_str.spec_bytes()) ==> r == Err::<(), ()>(()) && *final(node) == *old(node),
{
    let ip_address = match ip_string_to_u32(ip_str) {
        Ok(x) => x,
        Err(_) => {
            return Err(());
        },
    };
    node.followers.remove(ip_address);
    Ok(())
}

/// List the followers that have answered a heartbeat: one row per peer in
/// the latency table, joined with the send-time table (0 when the peer is
/// not in it).
pub fn list_followers(node: &RaftNode) -> (r: Vec<FollowerState>)
    requires
        node.followers.wf(),
        node.heartbeat_latency.wf(),
    ensures
        r@.len() == node.heartbeat_latency@.dom().len(),
        forall|j: int|
            0 <= j < r@.len() ==> node.heartbeat_latency@.dom().contains(
                (#[trigger] r@[j]).ip_raw,
            ) && r@[j].latency_ns == node.heartbeat_latency@[r@[j].ip_raw]
                && r@[j].last_seen_epoch == (if node.followers@.dom().contains(r@[j].ip_raw) {
                node.followers@[r@[j].ip_raw]
            } else {
                0
            }),
        forall|k: u32|
            node.heartbeat_latency@.dom().contains(k) ==> exists|j: int|
                0 <= j < r@.len() && (#[trigger] r@[j]).ip_raw == k,
{
    let keys = node.heartbeat_latency.keys();
    let n = keys.len();
    let mut r: Vec<FollowerState> = Vec::new();
    let mut i: usize = 0;
    while i < n
        invariant
            i <= n,
            n == keys@.len(),
            node.followers.wf(),
            node.heartbeat_latency.wf(),
            forall|j: int|
                0 <= j < keys@.len() ==> node.heartbeat_latency@.dom().contains(
                    #[trigger] keys@[j],
                ),
            r@.len() == i,
            forall|j: int| 0 <= j < i ==> (#[trigger] r@[j]).ip_raw == keys@[j],
            forall|j: int|
                0 <= j < i ==> (#[trigger] r@[j]).latency_ns == node.heartbeat_latency@[keys@[j]]
                    && r@[j].last_seen_epoch == (if node.followers@.dom().contains(keys@[j]) {
                    node.followers@[keys@[j]]
                } else {
                    0
                }),
        decreases n - i,
    {
        let ip = keys[i];
        let latency_ns = match node.heartbeat_latency.get(ip) {
            Some(x) => x,
            None => 0,
        };
        let last_seen = match node.followers.get(ip) {
            Some(x) => x,
            None => 0,
        };
        r.push(FollowerState { ip_raw: ip, latency_ns, last_seen_epoch: last_seen });
        i += 1;
    }
    proof {
        assert forall|k: u32| node.heartbeat_latency@.dom().contains(k) implies exists|j: int|
            0 <= j < r@.len() && (#[trigger] r@[j]).ip_raw == k by {
            assert(keys@.contains(k));
            let j = choose|j: int| 0 <= j < keys@.len() && keys@[j] == k;
            assert(r@[j].ip_raw == k);
        }
    }
    r
}

} // verus!
