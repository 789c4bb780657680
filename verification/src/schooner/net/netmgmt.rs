//! The peer manager: it knows the management channel of the task of each
//! peer and the channels that hear of a shutdown, and decides where each
//! event it is woken by goes.  Waiting for the events and sending on the
//! channels is left to the caller.
use vstd::prelude::*;
use std::collections::HashMap;
use std::sync::mpsc::Sender;

use super::peer::MgmtMsg;
use super::types::{NetPeerConfig, RaftRpc};

verus! {

broadcast use vstd::std_specs::hash::group_hash_axioms;

/// What the peer manager knows.
pub struct NetManager {
    /// configuration of this server
    pub conf: NetPeerConfig,
    /// the management channel of the task of each peer, by peer id
    pub peer_id_map: HashMap<u64, Sender<MgmtMsg>>,
    /// configurations of the peers
    pub peer_configs: Vec<NetPeerConfig>,
    /// the channels told of a shutdown
    pub shutdown_senders: Vec<Sender<u64>>,
}

/// What wakes the peer manager.
pub enum MgmtEvent {
    /// A peer with this id connected to us (its stream travels beside).
    NewPeer(u64),
    /// Raft has an RPC for the peer with this id.
    ToPeer(u64, RaftRpc),
    /// Raft asks for a shutdown with this exit code.
    Shutdown(u64),
}

/// Where the peer manager sends what woke it.
pub enum MgmtDispatch {
    /// Send the message to the task of the peer with this id.
    ToPeerTask(u64, MgmtMsg),
    /// Send the exit code on every shutdown channel and leave the loop.
    ShutdownAll(u64),
}

/// The position in `configs` of the last configuration of the peer `id`
/// is `i`.
pub open spec fn is_last_config(configs: Seq<NetPeerConfig>, i: int, id: u64) -> bool {
    &&& 0 <= i < configs.len()
    &&& configs[i].id == id
    &&& forall|j: int| i < j < configs.len() ==> #[trigger] configs[j].id != id
}

impl NetManager {
    /// The manager of the peers configured by `peer_configs`, whose tasks
    /// listen on `peer_ports` (one per configuration, in the same order; of
    /// two configurations with one id, the later one's task is kept).
    pub fn new(
        conf: NetPeerConfig,
        peer_configs: &Vec<NetPeerConfig>,
        peer_ports: Vec<Sender<MgmtMsg>>,
        shutdown_senders: Vec<Sender<u64>>,
    ) -> (m: NetManager)
        requires
            peer_ports.len() == peer_configs.len(),
        ensures
            m.conf == conf,
            m.peer_configs@ == peer_configs@,
            m.shutdown_senders == shutdown_senders,
            forall|k: u64|
                #[trigger] m.peer_id_map@.contains_key(k) <==> exists|i: int|
                    0 <= i < peer_configs.len() && peer_configs@[i].id == k,
            forall|i: int|
                #[trigger] is_last_config(peer_configs@, i, peer_configs@[i].id)
                    ==> m.peer_id_map@[peer_configs@[i].id] == peer_ports@[i],
    {
        let ghost ports0 = peer_ports@;
        let mut ports = peer_ports;
        let mut map: HashMap<u64, Sender<MgmtMsg>> = HashMap::new();
        let mut i: usize = peer_configs.len();
        while i > 0
            invariant
                i <= peer_configs.len(),
                ports0.len() == peer_configs.len(),
                ports@ == ports0.take(i as int),
                forall|k: u64|
                    #[trigger] map@.contains_key(k) <==> exists|j: int|
                        i <= j < peer_configs.len() && peer_configs@[j].id == k,
                forall|j: int|
                    i <= j < peer_configs.len() && #[trigger] is_last_config(
                        peer_configs@,
                        j,
                        peer_configs@[j].id,
                    ) ==> map@[peer_configs@[j].id] == ports0[j],
            decreases i,
        {
            i -= 1;
            let port = ports.pop().unwrap();
            assert(port == ports0[i as int]);
            assert(ports@ =~= ports0.take(i as int));
            let id = peer_configs[i].id;
            let ghost before = map@;
            if !map.contains_key(&id) {
                map.insert(id, port);
                assert forall|j: int|
                    i <= j < peer_configs.len() && #[trigger] is_last_config(
                        peer_configs@,
                        j,
                        peer_configs@[j].id,
                    ) implies map@[peer_configs@[j].id] == ports0[j] by {
                    if j > i && peer_configs@[j].id == id {
                        assert(before.contains_key(id));
                    }
                }
            } else {
                let ghost w = choose|j: int| i < j < peer_configs.len() && peer_configs@[j].id == id;
                assert(!is_last_config(peer_configs@, i as int, id)) by {
                    assert(peer_configs@[w].id == id);
                }
            }
        }
        NetManager { conf, peer_id_map: map, peer_configs: peer_configs.clone(), shutdown_senders }
    }

    /// The management channel of the task of the peer `id`, if the peer is
    /// known.
    pub fn port_of(&self, id: u64) -> (r: Option<&Sender<MgmtMsg>>)
        ensures
            match r {
                Some(p) => self.peer_id_map@.contains_key(id) && *p == self.peer_id_map@[id],
                None => !self.peer_id_map@.contains_key(id),
            },
    {
        self.peer_id_map.get(&id)
    }
}

/// Where an event of the peer manager goes: a new connection is offered to
/// the task of its peer, an RPC from Raft goes to the task of its peer, and
/// a shutdown goes to every shutdown channel and ends the loop.
pub fn dispatch(ev: MgmtEvent) -> (d: MgmtDispatch)
    ensures
        match ev {
            MgmtEvent::NewPeer(id) => d matches MgmtDispatch::ToPeerTask(to, MgmtMsg::AttachStreamMsg(a))
                && to == id && a == id,
            MgmtEvent::ToPeer(id, rpc) => d matches MgmtDispatch::ToPeerTask(to, MgmtMsg::SendMsg(r))
                && to == id && r == rpc,
            MgmtEvent::Shutdown(code) => d == MgmtDispatch::ShutdownAll(code),
        },
{
    match ev {
        MgmtEvent::NewPeer(id) => MgmtDispatch::ToPeerTask(id, MgmtMsg::AttachStreamMsg(id)),
        MgmtEvent::ToPeer(id, rpc) => MgmtDispatch::ToPeerTask(id, MgmtMsg::SendMsg(rpc)),
        MgmtEvent::Shutdown(code) => MgmtDispatch::ShutdownAll(code),
    }
}

} // verus!
