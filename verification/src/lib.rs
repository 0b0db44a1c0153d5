//! A minimal Raft-style leader-election node.
//!
//! The crate verifies the two coupled halves of such a node:
//! the packet classifier that turns inbound UDP frames into Raft events and
//! reflects responses in place, and the role state machine that drives
//! follower / candidate / leader transitions over shared tables.
//! All clocks and sockets stay outside; every function here takes plain
//! values and is verified for every value of them.

use vstd::prelude::*;

pub mod codec;
pub mod config;
pub mod frame;
pub mod fsm;
pub mod helpers;
pub mod node;
pub mod routes;
pub mod rpc;
pub mod state;
pub mod tables;
pub mod xdp;

verus! {

} // verus!
