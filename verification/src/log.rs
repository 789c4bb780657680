//! The command log: it checks each entry against the idx and term
//! of the last entry it holds; the caller writes accepted entries to the
//! end of the log file.
use vstd::prelude::*;

use crate::log_entry::LogEntry;

verus! {

/// Why the command log refused an entry.
#[derive(Debug, PartialEq, Eq, Clone, Copy)]
pub enum LogError {
    /// The entry's term is earlier than the current term.
    TermViolation { entry_term: u64, curr_term: u64 },
    /// The entry's index is not after the current index in the same term.
    IndexViolation { entry_term: u64, entry_index: u64, curr_term: u64, curr_idx: u64 },
}

/// The command log of a server (the file handle stays with the
/// caller).
pub struct Log {
    /// path of the log file
    pub path: String,
    pub entries: Vec<LogEntry>,
    /// last committed index
    pub commit_idx: u64,
    /// idx before the first entry in the log entries
    pub start_idx: u64,
    /// idx of the most recent entry
    pub curr_idx: u64,
    /// term of the last committed entry
    pub start_term: u64,
    /// term of the most recent entry
    pub curr_term: u64,
}

impl Log {
    /// A log for the file at `path`, whose last entry (when the file exists
    /// and its last line decodes) is `last_entry`: every index starts at
    /// that entry's index, every term at its term (0 without one).
    pub fn new(path: String, last_entry: Option<LogEntry>) -> (lg: Log)
        ensures
            lg.path == path,
            lg.entries@.len() == 0,
            lg.commit_idx == lg.start_idx && lg.start_idx == lg.curr_idx,
            lg.start_term == lg.curr_term,
            match last_entry {
                Some(e) => lg.curr_idx == e.index && lg.curr_term == e.term,
                None => lg.curr_idx == 0 && lg.curr_term == 0,
            },
    {
        let (idx, term) = match last_entry {
            Some(e) => (e.index, e.term),
            None => (0, 0),
        };
        Log {
            path,
            entries: Vec::new(),
            commit_idx: idx,
            start_idx: idx,
            curr_idx: idx,
            start_term: term,
            curr_term: term,
        }
    }

    /// Takes `entry` as the most recent entry of the log, unless its term
    /// is earlier than the current term, or, within the current term, its
    /// index is not after the current index; a refused entry leaves the log
    /// as it was.  The caller writes a taken entry to the end of the file.
    pub fn append_entry(&mut self, entry: LogEntry) -> (r: Result<(), LogError>)
        ensures
            entry.term < old(self).curr_term ==> r == Err::<(), LogError>(
                LogError::TermViolation { entry_term: entry.term, curr_term: old(self).curr_term },
            ) && *final(self) == *old(self),
            entry.term == old(self).curr_term && entry.index <= old(self).curr_idx ==> r == Err::<
                (),
                LogError,
            >(
                LogError::IndexViolation {
                    entry_term: entry.term,
                    entry_index: entry.index,
                    curr_term: old(self).curr_term,
                    curr_idx: old(self).curr_idx,
                },
            ) && *final(self) == *old(self),
            entry.term > old(self).curr_term || (entry.term == old(self).curr_term && entry.index
                > old(self).curr_idx) ==> r == Ok::<(), LogError>(()) && final(self).curr_idx
                == entry.index && final(self).curr_term == entry.term && final(self).path
                == old(self).path && final(self).entries == old(self).entries
                && final(self).commit_idx == old(self).commit_idx && final(self).start_idx
                == old(self).start_idx && final(self).start_term == old(self).start_term,
    {
        if entry.term < self.curr_term {
            return Err(LogError::TermViolation { entry_term: entry.term, curr_term: self.curr_term });
        } else if entry.term == self.curr_term && entry.index <= self.curr_idx {
            return Err(
                LogError::IndexViolation {
                    entry_term: entry.term,
                    entry_index: entry.index,
                    curr_term: self.curr_term,
                    curr_idx: self.curr_idx,
                },
            );
        }
        self.curr_idx = entry.index;
        self.curr_term = entry.term;
        Ok(())
    }
}

} // verus!
