//! The AppendEntries messages of the command log.
use vstd::prelude::*;

use crate::log_entry::LogEntry;

verus! {

/// An AppendEntries request for the command log.
#[derive(Debug)]
pub struct AppendEntriesRequest {
    pub term: u64,
    pub prev_log_idx: u64,
    pub prev_log_term: u64,
    pub commit_idx: u64,
    pub leader_name: String,
    pub entries: Vec<LogEntry>,
}

/// The answer to an AppendEntries request for the command log.
#[derive(Debug)]
pub struct AppendEntriesResponse {
    pub term: u64,
    pub curr_idx: u64,
    pub success: bool,
}

} // verus!
