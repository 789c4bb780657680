//! What the Raft task does as a leader.
use vstd::prelude::*;

use super::events::{AppendEntriesReq, AppendEntriesRes, VoteReq, VoteRes};
use super::net::types::RaftRpc;
use super::server::{
    heartbeat_sent, leader_handled, Outgoing, RaftNextState, RaftServerState, RaftStateTransition,
};
use crate::handles::new_uuid_v4;

verus! {

impl RaftServerState {
    /// Sets the leader up: it sends an initial heartbeat to all followers.
    pub fn leader_setup(&mut self) -> (t: RaftStateTransition)
        ensures
            t == RaftStateTransition::Continue,
            heartbeat_sent(old(self).outbox@, final(self).outbox@, old(self).log@, old(self).id),
            final(self).current_state == old(self).current_state,
            final(self).is_setup == old(self).is_setup,
            final(self).log == old(self).log,
            final(self).current_term == old(self).current_term,
            final(self).last_applied == old(self).last_applied,
            final(self).id == old(self).id,
    {
        self.leader_heartbeat();
        RaftStateTransition::Continue
    }

    /// Tears the leader down: it becomes a follower again.
    pub fn leader_teardown(&mut self)
        ensures
            final(self).current_state == RaftNextState::RaftFollower,
            !final(self).is_setup,
            final(self).log == old(self).log,
            final(self).outbox == old(self).outbox,
            final(self).current_term == old(self).current_term,
            final(self).last_applied == old(self).last_applied,
            final(self).id == old(self).id,
    {
        self.new_state(RaftNextState::RaftFollower);
    }

    /// Sends every peer a heartbeat: an AppendEntries request with no
    /// entries whose previous entry is the last entry of the leader's log.
    pub fn leader_heartbeat(&mut self) -> (t: RaftStateTransition)
        ensures
            t == RaftStateTransition::Continue,
            heartbeat_sent(old(self).outbox@, final(self).outbox@, old(self).log@, old(self).id),
            final(self).current_state == old(self).current_state,
            final(self).is_setup == old(self).is_setup,
            final(self).log == old(self).log,
            final(self).current_term == old(self).current_term,
            final(self).last_applied == old(self).last_applied,
            final(self).id == old(self).id,
    {
        let aer = AppendEntriesReq {
            term: self.log.term,
            prev_log_idx: self.log.idx,
            prev_log_term: self.log.term,
            commit_idx: self.log.idx,
            leader_id: self.id,
            uuid: new_uuid_v4(),
            entries: Vec::new(),
        };
        self.outbox.push(Outgoing::ToAllPeers(RaftRpc::RpcARQ(aer)));
        assert(self.outbox@.drop_last() =~= old(self).outbox@);
        RaftStateTransition::Continue
    }

    /// Adds the request's entries to the local log and, when the log takes
    /// them, sends the request on to the followers.
    pub fn leader_append_entries_req(&mut self, req: AppendEntriesReq) -> (t: RaftStateTransition)
        ensures
            t == RaftStateTransition::Continue,
            leader_handled(*old(self), *final(self), req),
            final(self).current_state == old(self).current_state,
            final(self).is_setup == old(self).is_setup,
            final(self).current_term == old(self).current_term,
            final(self).id == old(self).id,
    {
        if self.log.append_entries(&req).is_ok() {
            self.outbox.push(Outgoing::ToAllPeers(RaftRpc::RpcARQ(req)));
        }
        RaftStateTransition::Continue
    }

    /// An AppendEntries response; the leader does not act on it yet.
    pub fn leader_append_entries_res(&mut self, res: AppendEntriesRes) -> (t: RaftStateTransition)
        ensures
            t == RaftStateTransition::Continue,
            *final(self) == *old(self),
    {
        RaftStateTransition::Continue
    }

    /// A vote request; the leader does not act on it yet.
    pub fn leader_vote_req(&mut self, req: VoteReq) -> (t: RaftStateTransition)
        ensures
            t == RaftStateTransition::Continue,
            *final(self) == *old(self),
    {
        RaftStateTransition::Continue
    }

    /// A vote response; the leader does not act on it yet.
    pub fn leader_vote_res(&mut self, res: VoteRes) -> (t: RaftStateTransition)
        ensures
            t == RaftStateTransition::Continue,
            *final(self) == *old(self),
    {
        RaftStateTransition::Continue
    }
}

} // verus!
