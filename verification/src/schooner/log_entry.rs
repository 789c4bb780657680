//! An entry of the request log.
use vstd::prelude::*;

use super::consistent_log;

verus! {

/// One entry of the request log.
#[derive(Debug, PartialEq, Eq)]
pub struct LogEntry {
    /// raft idx in the log
    pub idx: u64,
    /// raft term in the log
    pub term: u64,
    /// data or "command" to log
    pub data: String,
    /// unique id from the client
    pub uuid: String,
}

impl LogEntry {
    /// The same entry, as the replicated log holds it.
    pub fn from_replicated(e: &consistent_log::LogEntry) -> (r: LogEntry)
        ensures
            r.idx == e.idx,
            r.term == e.term,
            r.data == e.data,
            r.uuid == e.uuid,
    {
        LogEntry { idx: e.idx, term: e.term, data: e.data.clone(), uuid: e.uuid.clone() }
    }
}

} // verus!
