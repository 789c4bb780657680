//! The messages that travel between peers, and the configuration of a
//! peer.
use vstd::prelude::*;

use crate::schooner::events::{AppendEntriesReq, AppendEntriesRes, VoteReq, VoteRes};

verus! {

/// A bare RPC as it arrives from the network.
pub enum RaftRpc {
    RpcARQ(AppendEntriesReq),
    RpcARS(AppendEntriesRes),
    RpcVRQ(VoteReq),
    RpcVRS(VoteRes),
    RpcStopReq,
}

/// An IPv4 socket address.
#[derive(Clone, Copy, Debug, PartialEq, Eq, Hash)]
pub struct PeerAddr {
    pub ip: [u8; 4],
    pub port: u16,
}

/// How to reach a peer.
#[derive(Clone, Copy, Debug, PartialEq, Eq, Hash)]
pub struct NetPeerConfig {
    pub id: u64,
    /// The peer's Raft listening address; not necessarily the port requests
    /// from it come from, so the peer sends its id on its first connection.
    pub address: PeerAddr,
    /// The peer's client listening address.
    pub client_addr: PeerAddr,
}

} // verus!
