//! An entry of the command log, with a command name and an
//! optional command.
use vstd::prelude::*;

verus! {

/// One entry of the command log.
#[derive(Debug, PartialEq, Eq)]
pub struct LogEntry {
    pub index: u64,
    pub term: u64,
    pub command_name: String,
    /// optional, for the nop command
    pub command: Option<String>,
}

} // verus!
