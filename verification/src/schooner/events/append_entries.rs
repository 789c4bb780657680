//! Events for the AppendEntries RPC.
use vstd::prelude::*;
use uuid::Uuid;

use crate::schooner::consistent_log::LogEntry;
use super::traits::RaftEvent;

verus! {

/// An AppendEntries request from a leader.
pub struct AppendEntriesReq {
    /// current term of the leader
    pub term: u64,
    /// idx of the leader's entry immediately before the first entry here
    pub prev_log_idx: u64,
    /// term of the leader's entry immediately before the first entry here
    pub prev_log_term: u64,
    /// last idx committed to the leader's state machine
    pub commit_idx: u64,
    /// id of the leader
    pub leader_id: u64,
    /// identifies this request
    pub uuid: Uuid,
    /// entries to log; empty for a heartbeat
    pub entries: Vec<LogEntry>,
}

/// The answer to an AppendEntries request.
pub struct AppendEntriesRes {
    pub success: bool,
    pub term: u64,
    pub uuid: Uuid,
}

impl RaftEvent for AppendEntriesReq {}

impl RaftEvent for AppendEntriesRes {}

} // verus!
