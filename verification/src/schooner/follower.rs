//! What the Raft task does as a follower.
use vstd::prelude::*;

use super::events::{AppendEntriesReq, AppendEntriesRes, VoteReq, VoteRes};
use super::server::{follower_handled, Outgoing, RaftServerState, RaftStateTransition};
use crate::handles::new_uuid_v4;

verus! {

impl RaftServerState {
    /// Sets the follower up; nothing to do.
    pub fn follower_setup(&mut self) -> (t: RaftStateTransition)
        ensures
            t == RaftStateTransition::Continue,
            *final(self) == *old(self),
    {
        RaftStateTransition::Continue
    }

    /// Tears the follower down; nothing to do.
    pub fn follower_teardown(&mut self)
        ensures
            *final(self) == *old(self),
    {
    }

    /// An AppendEntries request from the leader: the follower applies one
    /// more entry when the leader has committed beyond what it applied, and
    /// answers "no" with its own term to a leader of an earlier term.
    pub fn follower_append_entries_req(&mut self, req: AppendEntriesReq) -> (t: RaftStateTransition)
        ensures
            t == RaftStateTransition::Continue,
            follower_handled(*old(self), *final(self), req),
            final(self).current_state == old(self).current_state,
            final(self).is_setup == old(self).is_setup,
            final(self).current_term == old(self).current_term,
            final(self).id == old(self).id,
    {
        if req.commit_idx > self.last_applied {
            self.last_applied += 1;
        }
        if req.term > self.current_term {
            // A later term: the follower keeps its role.
        } else if req.term < self.current_term {
            self.outbox.push(
                Outgoing::ReplyAppendEntries(
                    AppendEntriesRes { success: false, term: self.current_term, uuid: new_uuid_v4() },
                ),
            );
            assert(self.outbox@.drop_last() =~= old(self).outbox@);
        }
        RaftStateTransition::Continue
    }

    /// An AppendEntries response; the follower does not act on it.
    pub fn follower_append_entries_res(&mut self, res: AppendEntriesRes) -> (t: RaftStateTransition)
        ensures
            t == RaftStateTransition::Continue,
            *final(self) == *old(self),
    {
        RaftStateTransition::Continue
    }

    /// A vote request; the follower does not act on it yet.
    pub fn follower_vote_req(&mut self, req: VoteReq) -> (t: RaftStateTransition)
        ensures
            t == RaftStateTransition::Continue,
            *final(self) == *old(self),
    {
        RaftStateTransition::Continue
    }

    /// A vote response; the follower does not act on it.
    pub fn follower_vote_res(&mut self, res: VoteRes) -> (t: RaftStateTransition)
        ensures
            t == RaftStateTransition::Continue,
            *final(self) == *old(self),
    {
        RaftStateTransition::Continue
    }
}

} // verus!
