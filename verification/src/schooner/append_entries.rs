//! The AppendEntries messages as they travel between servers.
use vstd::prelude::*;

use super::consistent_log::LogEntry;

verus! {

/// An AppendEntries request.
#[derive(Debug)]
pub struct AppendEntriesRequest {
    /// current term of the leader
    pub term: u64,
    /// idx of the leader's entry immediately before the first entry here
    pub prev_log_idx: u64,
    /// term of the leader's entry immediately before the first entry here
    pub prev_log_term: u64,
    /// last idx committed to the leader's state machine
    pub commit_idx: u64,
    /// id of the leader (from the config file)
    pub leader_id: usize,
    /// entries to log; may be empty (heartbeat)
    pub entries: Vec<LogEntry>,
}

/// The answer to an AppendEntries request.
#[derive(Debug, PartialEq, Eq)]
pub struct AppendEntriesResponse {
    /// whether the follower logged the entries of the last request
    pub success: bool,
    /// term of the last entry in the follower's log
    pub term: u64,
    /// idx of the last entry in the follower's log
    pub idx: u64,
    /// idx of the last committed entry in the follower's log
    pub commit_idx: u64,
    /// id of the follower sending the response
    pub peer_id: usize,
}

} // verus!
