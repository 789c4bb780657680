//! The decisions of the task that talks to one peer: which connection it
//! keeps, what it does with management messages, and how an RPC from the
//! peer reaches Raft.  The connection itself and the channels are driven
//! by the caller.
use vstd::prelude::*;
use std::sync::mpsc::Sender;

use super::types::{NetPeerConfig, RaftRpc};
use crate::schooner::events::RaftMsg;

verus! {

/// The state of the task for one peer.
pub struct NetPeer {
    /// id of the local Raft server
    pub id: u64,
    /// configuration of the peer
    pub conf: NetPeerConfig,
    /// whether a connection to the peer is open
    pub connected: bool,
    /// whether the task was told to stop
    pub shutdown: bool,
    /// for telling Raft about network messages
    pub to_raft: Sender<RaftMsg>,
}

/// A message from the peer manager (a stream to attach travels beside it).
pub enum MgmtMsg {
    /// A connection from the peer with this id was accepted.
    AttachStreamMsg(u64),
    /// An RPC for the task to handle over the peer's connection.
    SendMsg(RaftRpc),
    /// Stop the task.
    StopMsg,
}

/// What the task does with a management message.
#[derive(Clone, Copy, Debug, PartialEq, Eq, Structural)]
pub enum MgmtOutcome {
    /// The offered connection is now the peer's connection.
    AttachAccepted,
    /// The offered connection is dropped.
    AttachRefused,
    /// The RPC is handled as one that came in on the peer's connection
    /// (see `route_rpc`), whose answers, if any, go out on it.
    SendOnStream,
    /// The message is dropped.
    Dropped,
    /// The task stops and drops its connection.
    Stopped,
}

/// How an RPC that came from the peer reaches Raft.
#[derive(Clone, Copy, Debug, PartialEq, Eq, Structural)]
pub enum RpcRoute {
    /// Hand the request to Raft, wait for its response and write the
    /// response back to the peer.
    ForwardAndReply,
    /// Hand the response to Raft.
    Forward,
    /// Tell Raft to stop; the connection is given up.
    Stop,
}

impl NetPeer {
    /// The task for the peer configured by `config`, on the server `id`,
    /// not connected yet.
    pub fn new(id: u64, config: NetPeerConfig, to_raft: Sender<RaftMsg>) -> (p: NetPeer)
        ensures
            p.id == id,
            p.conf == config,
            !p.connected,
            !p.shutdown,
            p.to_raft == to_raft,
    {
        NetPeer { id, conf: config, connected: false, shutdown: false, to_raft }
    }

    /// Takes a connection that the peer opened to us; refused when a
    /// connection is already open or the task is stopping.
    pub fn attach_stream(&mut self) -> (accepted: bool)
        ensures
            accepted == (!old(self).connected && !old(self).shutdown),
            final(self).connected == (old(self).connected || accepted),
            final(self).shutdown == old(self).shutdown,
            final(self).id == old(self).id,
            final(self).conf == old(self).conf,
    {
        if self.connected || self.shutdown {
            return false;
        }
        self.connected = true;
        true
    }

    /// What the task does with a management message: a connection is taken
    /// only from the configured peer, an RPC is handled only while a
    /// connection is open, and a stop message stops the task.
    pub fn check_mgmt_msg(&mut self, msg: &MgmtMsg) -> (out: MgmtOutcome)
        ensures
            final(self).id == old(self).id,
            final(self).conf == old(self).conf,
            match *msg {
                MgmtMsg::AttachStreamMsg(peer_id) => if peer_id == old(self).conf.id {
                    if !old(self).connected && !old(self).shutdown {
                        out == MgmtOutcome::AttachAccepted && final(self).connected
                            && final(self).shutdown == old(self).shutdown
                    } else {
                        out == MgmtOutcome::AttachRefused && final(self).connected
                            == old(self).connected && final(self).shutdown == old(self).shutdown
                    }
                } else {
                    out == MgmtOutcome::Dropped && final(self).connected == old(self).connected
                        && final(self).shutdown == old(self).shutdown
                },
                MgmtMsg::SendMsg(_) => (out == if old(self).connected {
                    MgmtOutcome::SendOnStream
                } else {
                    MgmtOutcome::Dropped
                }) && final(self).connected == old(self).connected && final(self).shutdown
                    == old(self).shutdown,
                MgmtMsg::StopMsg => out == MgmtOutcome::Stopped && final(self).shutdown
                    && !final(self).connected,
            },
    {
        match msg {
            MgmtMsg::AttachStreamMsg(peer_id) => {
                if *peer_id == self.conf.id {
                    if self.attach_stream() {
                        MgmtOutcome::AttachAccepted
                    } else {
                        MgmtOutcome::AttachRefused
                    }
                } else {
                    MgmtOutcome::Dropped
                }
            },
            MgmtMsg::SendMsg(_) => {
                if self.connected {
                    MgmtOutcome::SendOnStream
                } else {
                    MgmtOutcome::Dropped
                }
            },
            MgmtMsg::StopMsg => {
                self.shutdown = true;
                self.connected = false;
                MgmtOutcome::Stopped
            },
        }
    }

    /// The connection to the peer was lost; reports whether the task
    /// connects again (it does unless it was told to stop).
    pub fn connection_lost(&mut self) -> (reconnect: bool)
        ensures
            !final(self).connected,
            reconnect == !old(self).shutdown,
            final(self).shutdown == old(self).shutdown,
            final(self).id == old(self).id,
            final(self).conf == old(self).conf,
    {
        self.connected = false;
        !self.shutdown
    }
}

/// How an RPC from the peer reaches Raft: requests are answered over the
/// same connection, responses are handed on, and a stop request stops
/// Raft and gives up the connection.
pub fn route_rpc(rpc: &RaftRpc) -> (route: RpcRoute)
    ensures
        route == match *rpc {
            RaftRpc::RpcARQ(_) | RaftRpc::RpcVRQ(_) => RpcRoute::ForwardAndReply,
            RaftRpc::RpcARS(_) | RaftRpc::RpcVRS(_) => RpcRoute::Forward,
            RaftRpc::RpcStopReq => RpcRoute::Stop,
        },
{
    match rpc {
        RaftRpc::RpcARQ(_) => RpcRoute::ForwardAndReply,
        RaftRpc::RpcARS(_) => RpcRoute::Forward,
        RaftRpc::RpcVRQ(_) => RpcRoute::ForwardAndReply,
        RaftRpc::RpcVRS(_) => RpcRoute::Forward,
        RaftRpc::RpcStopReq => RpcRoute::Stop,
    }
}

} // verus!
