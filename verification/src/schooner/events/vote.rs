//! Events for the RequestVote RPC.
use vstd::prelude::*;
use uuid::Uuid;

verus! {

/// A candidate's request for a vote.
pub struct VoteReq {
    pub term: u64,
    pub candidate_id: u64,
    pub last_log_index: u64,
    pub last_log_term: u64,
    pub uuid: Uuid,
}

/// The answer to a vote request.
pub struct VoteRes {
    pub term: u64,
    pub vote_granted: bool,
    pub uuid: Uuid,
}

} // verus!
