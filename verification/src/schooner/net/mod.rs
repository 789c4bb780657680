//! Networking: message framing, the peers of a server and their
//! connections.
use vstd::prelude::*;
use std::sync::mpsc::Receiver;

use self::types::NetPeerConfig;
use crate::schooner::events::{AppendEntriesReq, AppendEntriesRes, VoteReq, VoteRes};

pub mod netmgmt;
pub mod parsers;
pub mod peer;
pub mod types;

verus! {

/// How long a connection attempt to a peer may take, in milliseconds.
pub const CONNECT_TIMEOUT: u64 = 3000;

/// The configuration of the peer with id `peer_id` among `configs` (the
/// last one, when several have that id).
pub open spec fn config_of(configs: Seq<NetPeerConfig>, peer_id: u64) -> Option<NetPeerConfig>
    decreases configs.len(),
{
    if configs.len() == 0 {
        None
    } else if configs.last().id == peer_id {
        Some(configs.last())
    } else {
        config_of(configs.drop_last(), peer_id)
    }
}

/// Every configured peer is found: the configuration of id `peer_id` is
/// the last one in `configs` with that id, and there is none exactly when
/// no configuration has that id.
pub proof fn lemma_config_of_finds_last(configs: Seq<NetPeerConfig>, peer_id: u64)
    ensures
        config_of(configs, peer_id) is None <==> forall|i: int|
            0 <= i < configs.len() ==> #[trigger] configs[i].id != peer_id,
        forall|j: int|
            0 <= j < configs.len() && #[trigger] configs[j].id == peer_id && (forall|m: int|
                j < m < configs.len() ==> #[trigger] configs[m].id != peer_id) ==> config_of(configs, peer_id)
                == Some(configs[j]),
    decreases configs.len(),
{
    if configs.len() > 0 {
        let rest = configs.drop_last();
        lemma_config_of_finds_last(rest, peer_id);
        assert forall|i: int| 0 <= i < rest.len() implies rest[i] == configs[i] by {}
        if configs.last().id != peer_id {
            assert forall|j: int|
                0 <= j < configs.len() && #[trigger] configs[j].id == peer_id && (forall|m: int|
                    j < m < configs.len() ==> #[trigger] configs[m].id != peer_id) implies config_of(
                configs,
                peer_id,
            ) == Some(configs[j]) by {
                assert(rest[j] == configs[j]);
                assert forall|m: int| j < m < rest.len() implies #[trigger] rest[m].id != peer_id by {
                    assert(rest[m] == configs[m]);
                }
            }
        } else {
            assert forall|j: int|
                0 <= j < configs.len() && #[trigger] configs[j].id == peer_id && (forall|m: int|
                    j < m < configs.len() ==> #[trigger] configs[m].id != peer_id) implies config_of(
                configs,
                peer_id,
            ) == Some(configs[j]) by {
                if j < configs.len() - 1 {
                    assert(configs[configs.len() - 1].id == peer_id);
                }
            }
            assert(configs[configs.len() - 1].id == peer_id);
        }
    }
}

/// The configuration of the peer to connect to, found by its id; a peer
/// with no configuration cannot be connected to.
pub fn peer_config_for(peer_configs: &Vec<NetPeerConfig>, peer_id: u64) -> (r: Option<NetPeerConfig>)
    ensures
        r == config_of(peer_configs@, peer_id),
{
    let mut peer: Option<NetPeerConfig> = None;
    let mut i: usize = 0;
    assert(peer_configs@.take(0) =~= Seq::<NetPeerConfig>::empty());
    while i < peer_configs.len()
        invariant
            i <= peer_configs.len(),
            peer == config_of(peer_configs@.take(i as int), peer_id),
        decreases peer_configs.len() - i,
    {
        assert(peer_configs@.take(i + 1).drop_last() =~= peer_configs@.take(i as int));
        if peer_configs[i].id == peer_id {
            peer = Some(peer_configs[i]);
        }
        i += 1;
    }
    assert(peer_configs@.take(i as int) =~= peer_configs@);
    peer
}

/// The ids of `configs`, each once, in the order of their first
/// configuration.
pub open spec fn first_ids(configs: Seq<NetPeerConfig>) -> Seq<u64>
    decreases configs.len(),
{
    if configs.len() == 0 {
        Seq::empty()
    } else {
        let ids = first_ids(configs.drop_last());
        if ids.contains(configs.last().id) {
            ids
        } else {
            ids.push(configs.last().id)
        }
    }
}

/// What the network side knows of the peers of a server (the open
/// connections are held by the caller).
pub struct NetListener {
    /// Peer configurations.
    pub peer_configs: Vec<NetPeerConfig>,
}

impl NetListener {
    /// A listener that knows no peer.
    pub fn new() -> (nl: NetListener)
        ensures
            nl.peer_configs@.len() == 0,
    {
        NetListener { peer_configs: Vec::new() }
    }

    /// Records the configurations of the peers, after those already known.
    pub fn add_peer_configs(&mut self, peer_configs: &Vec<NetPeerConfig>)
        ensures
            final(self).peer_configs@ == old(self).peer_configs@ + peer_configs@,
    {
        let mut i: usize = 0;
        while i < peer_configs.len()
            invariant
                i <= peer_configs.len(),
                self.peer_configs@ == old(self).peer_configs@ + peer_configs@.take(i as int),
            decreases peer_configs.len() - i,
        {
            self.peer_configs.push(peer_configs[i]);
            i += 1;
            assert(self.peer_configs@ =~= old(self).peer_configs@ + peer_configs@.take(i as int));
        }
        assert(peer_configs@.take(i as int) =~= peer_configs@);
    }

    /// The configuration to connect to the peer `peer_id` with, if it is
    /// known.
    pub fn find_peer(&self, peer_id: u64) -> (r: Option<NetPeerConfig>)
        ensures
            r == config_of(self.peer_configs@, peer_id),
    {
        peer_config_for(&self.peer_configs, peer_id)
    }

    /// The ids of the known peers (those believed down too), each once, in
    /// the order in which their first configuration was added.
    pub fn get_peer_ids(&self) -> (ids: Vec<u64>)
        ensures
            ids@ == first_ids(self.peer_configs@),
            ids@.no_duplicates(),
            forall|k: u64|
                #[trigger] ids@.contains(k) <==> exists|i: int|
                    0 <= i < self.peer_configs@.len() && self.peer_configs@[i].id == k,
    {
        let mut ids: Vec<u64> = Vec::new();
        let mut i: usize = 0;
        while i < self.peer_configs.len()
            invariant
                i <= self.peer_configs.len(),
                ids@ == first_ids(self.peer_configs@.take(i as int)),
                ids@.no_duplicates(),
                forall|k: u64|
                    #[trigger] ids@.contains(k) <==> exists|j: int|
                        0 <= j < i && self.peer_configs@[j].id == k,
            decreases self.peer_configs.len() - i,
        {
            let id = self.peer_configs[i].id;
            let mut seen = false;
            let mut k: usize = 0;
            while k < ids.len()
                invariant
                    k <= ids.len(),
                    seen <==> exists|m: int| 0 <= m < k && ids@[m] == id,
                decreases ids.len() - k,
            {
                if ids[k] == id {
                    seen = true;
                }
                k += 1;
            }
            let ghost before = ids@;
            assert(self.peer_configs@.take(i + 1).drop_last() =~= self.peer_configs@.take(i as int));
            assert(seen == before.contains(id));
            if !seen {
                ids.push(id);
                assert forall|a: int, b: int| 0 <= a < b < ids@.len() implies ids@[a] != ids@[b] by {
                    if b == ids@.len() - 1 {
                        assert(before[a] == ids@[a]);
                    }
                }
                assert forall|q: u64| #[trigger] ids@.contains(q) implies exists|j: int|
                    0 <= j < i + 1 && self.peer_configs@[j].id == q by {
                    let m = choose|m: int| 0 <= m < ids@.len() && ids@[m] == q;
                    if m < before.len() {
                        assert(before.contains(q));
                    } else {
                        assert(self.peer_configs@[i as int].id == q);
                    }
                }
                assert forall|q: u64| (exists|j: int| 0 <= j < i + 1 && self.peer_configs@[j].id == q)
                    implies #[trigger] ids@.contains(q) by {
                    let j = choose|j: int| 0 <= j < i + 1 && self.peer_configs@[j].id == q;
                    if j < i {
                        assert(before.contains(q));
                        let m = choose|m: int| 0 <= m < before.len() && before[m] == q;
                        assert(ids@[m] == q);
                    } else {
                        assert(ids@[before.len() as int] == q);
                    }
                }
            } else {
                assert forall|q: u64| (exists|j: int| 0 <= j < i + 1 && self.peer_configs@[j].id == q)
                    implies #[trigger] ids@.contains(q) by {
                    let j = choose|j: int| 0 <= j < i + 1 && self.peer_configs@[j].id == q;
                    if j == i {
                        let m = choose|m: int| 0 <= m < ids@.len() && ids@[m] == id;
                        assert(ids@[m] == q);
                    }
                }
            }
            i += 1;
        }
        assert(self.peer_configs@.take(i as int) =~= self.peer_configs@);
        ids
    }

    /// Sends an AppendEntries request to a peer and gives the channel of
    /// its response; no request is sent yet, so there is none.
    pub fn send_append_req(&mut self, peer: usize, cmd: AppendEntriesReq) -> (r: Option<
        Receiver<AppendEntriesRes>,
    >)
        ensures
            r is None,
    {
        None
    }

    /// Sends a vote request to a peer and gives the channel of its
    /// response; no request is sent yet, so there is none.
    pub fn send_vote_req(peer: NetPeerConfig, cmd: VoteReq) -> (r: Option<Receiver<VoteRes>>)
        ensures
            r is None,
    {
        None
    }
}

} // verus!
