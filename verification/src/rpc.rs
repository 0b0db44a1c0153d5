//! The RPC emitter's data: one datagram per non-zero peer slot, carrying
//! the term as an 8-byte big-endian payload. The caller owns the socket and
//! performs the sends; this module fixes exactly what is sent where.

use vstd::prelude::*;
use crate::codec::be64_bytes;
use crate::codec::encode_term;

verus! {

/// One outbound RPC datagram.
#[derive(Debug, Clone)]
pub struct Rpc {
    pub dest_ip: u32,
    pub dest_port: u16,
    pub payload: Vec<u8>,
}

/// The peers an RPC round reaches: the non-zero slots, kept in order.
pub open spec fn rpc_targets(peers: Seq<u32>) -> Seq<u32>
    decreases peers.len(),
{
    if peers.len() == 0 {
        Seq::empty()
    } else {
        let pre = rpc_targets(peers.drop_last());
        if peers.last() == 0 {
            pre
        } else {
            pre.push(peers.last())
        }
    }
}

/// Empty peer slots are skipped in every RPC round, and every non-zero slot
/// is reached exactly once (one target per non-zero slot).
pub proof fn lemma_rpc_targets(peers: Seq<u32>)
    ensures
        forall|i: int|
            0 <= i < rpc_targets(peers).len() ==> #[trigger] rpc_targets(peers)[i] != 0
                && peers.contains(rpc_targets(peers)[i]),
        forall|j: int|
            0 <= j < peers.len() && peers[j] != 0 ==> rpc_targets(peers).contains(
                #[trigger] peers[j],
            ),
        rpc_targets(peers).len() <= peers.len(),
    decreases peers.len(),
{
    if peers.len() > 0 {
        let pre = peers.drop_last();
        lemma_rpc_targets(pre);
        let t = rpc_targets(peers);
        let tp = rpc_targets(pre);
        assert forall|i: int| 0 <= i < t.len() implies #[trigger] t[i] != 0 && peers.contains(
            t[i],
        ) by {
            if i < tp.len() {
                assert(tp[i] != 0 && pre.contains(tp[i]));
                let w = choose|w: int| 0 <= w < pre.len() && pre[w] == tp[i];
                assert(peers[w] == tp[i]);
            } else {
                assert(t[i] == peers.last());
                assert(peers[peers.len() - 1] == peers.last());
            }
        }
        assert forall|j: int| 0 <= j < peers.len() && peers[j] != 0 implies t.contains(
            #[trigger] peers[j],
        ) by {
            if j < peers.len() - 1 {
                assert(pre[j] == peers[j]);
                assert(pre.contains(peers[j]));
                let w = choose|w: int| 0 <= w < tp.len() && tp[w] == peers[j];
                assert(t[w] == peers[j]);
            } else {
                assert(t[t.len() - 1] == peers.last());
            }
        }
    }
}

/// Build the RPC round for a peer array: one datagram per non-zero slot, in
/// slot order, all to the same port, all carrying the term.
pub fn build_rpcs(peers: &[u32; 2], term: u64, port: u16) -> (r: Vec<Rpc>)
    ensures
        r@.len() == rpc_targets(peers@).len(),
        forall|i: int|
            0 <= i < r@.len() ==> (#[trigger] r@[i]).dest_ip == rpc_targets(peers@)[i]
                && r@[i].dest_port == port && r@[i].payload@ == be64_bytes(term),
{
    let mut r: Vec<Rpc> = Vec::new();
    let mut i: usize = 0;
    proof {
        assert(peers@.take(0) =~= Seq::<u32>::empty());
    }
    while i < 2
        invariant
            i <= 2,
            peers@.len() == 2,
            r@.len() == rpc_targets(peers@.take(i as int)).len(),
            forall|j: int|
                0 <= j < r@.len() ==> (#[trigger] r@[j]).dest_ip == rpc_targets(
                    peers@.take(i as int),
                )[j] && r@[j].dest_port == port && r@[j].payload@ == be64_bytes(term),
        decreases 2 - i,
    {
        let p = peers[i];
        proof {
            let pre = peers@.take(i as int);
            let cur = peers@.take(i as int + 1);
            assert(cur.drop_last() =~= pre);
            assert(cur.last() == peers@[i as int]);
        }
        if p != 0 {
            r.push(Rpc { dest_ip: p, dest_port: port, payload: encode_term(term) });
        }
        i += 1;
    }
    proof {
        assert(peers@.take(2) =~= peers@);
    }
    r
}

} // verus!
