//! What the Raft task does as a candidate (elections are not run yet).
use vstd::prelude::*;

use super::events::{AppendEntriesReq, AppendEntriesRes, VoteReq, VoteRes};
use super::server::{RaftServerState, RaftStateTransition};

verus! {

impl RaftServerState {
    /// Sets the candidate up; nothing to do yet.
    pub fn candidate_setup(&mut self) -> (t: RaftStateTransition)
        ensures
            t == RaftStateTransition::Continue,
            *final(self) == *old(self),
    {
        RaftStateTransition::Continue
    }

    /// Tears the candidate down; nothing to do.
    pub fn candidate_teardown(&mut self)
        ensures
            *final(self) == *old(self),
    {
    }

    /// An AppendEntries request; the candidate does not act on it yet.
    pub fn candidate_append_entries_req(&mut self, req: AppendEntriesReq) -> (t: RaftStateTransition)
        ensures
            t == RaftStateTransition::Continue,
            *final(self) == *old(self),
    {
        RaftStateTransition::Continue
    }

    /// An AppendEntries response; the candidate does not act on it yet.
    pub fn candidate_append_entries_res(&mut self, res: AppendEntriesRes) -> (t: RaftStateTransition)
        ensures
            t == RaftStateTransition::Continue,
            *final(self) == *old(self),
    {
        RaftStateTransition::Continue
    }

    /// A vote request; the candidate does not act on it yet.
    pub fn candidate_vote_req(&mut self, req: VoteReq) -> (t: RaftStateTransition)
        ensures
            t == RaftStateTransition::Continue,
            *final(self) == *old(self),
    {
        RaftStateTransition::Continue
    }

    /// A vote response; the candidate does not act on it yet.
    pub fn candidate_vote_res(&mut self, res: VoteRes) -> (t: RaftStateTransition)
        ensures
            t == RaftStateTransition::Continue,
            *final(self) == *old(self),
    {
        RaftStateTransition::Continue
    }
}

} // verus!
