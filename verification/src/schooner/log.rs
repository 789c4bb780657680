//! The request log: it remembers the entry it ended with when it was
//! opened, takes an AppendEntries request whose previous entry is that
//! entry, and checks each entry of the request against the last entry it
//! holds before taking it.  The caller writes taken entries to the end of
//! the log file.
use vstd::prelude::*;

use super::append_entries::AppendEntriesRequest;
use super::consistent_log;
use super::log_entry::LogEntry;

verus! {

/// Why the request log refused a request or an entry.
#[derive(Debug, PartialEq, Eq, Clone, Copy)]
pub enum LogError {
    /// The request's prev_log_idx is not the log's start_idx.
    PrevLogIdxMismatch { start_idx: u64 },
    /// The request's prev_log_term is not the log's start_term.
    TermMismatch { start_term: u64 },
    /// The entry's term is earlier than the term of the log's last entry.
    TermViolation { entry_term: u64, last_term: u64 },
    /// The entry's idx is not after the idx of the log's last entry, in
    /// the same term.
    IndexViolation { entry_term: u64, entry_idx: u64, last_term: u64, last_idx: u64 },
}

/// The request log (the file handle stays with the caller).
pub struct Log {
    /// path of the log file
    pub path: String,
    /// the entries taken since the log was opened, in order
    pub entries: Vec<LogEntry>,
    /// last committed index
    pub commit_idx: u64,
    /// idx of the last entry in the log before the entries taken since it
    /// was opened (may not be committed)
    pub start_idx: u64,
    /// term of that entry
    pub start_term: u64,
}

/// What a request log stands for: the entry it was opened at and the
/// entries taken since.
pub struct RequestLogState {
    pub start_idx: u64,
    pub start_term: u64,
    pub entries: Seq<LogEntry>,
}

impl View for Log {
    type V = RequestLogState;

    open spec fn view(&self) -> RequestLogState {
        RequestLogState { start_idx: self.start_idx, start_term: self.start_term, entries: self.entries@ }
    }
}

/// The idx and term of the last entry of the log: the last one taken, or
/// the one it was opened at.
pub open spec fn last_entry(s: RequestLogState) -> (u64, u64) {
    if s.entries.len() == 0 {
        (s.start_idx, s.start_term)
    } else {
        (s.entries.last().idx, s.entries.last().term)
    }
}

/// The reason, if any, for which a log whose last entry is `last` refuses
/// an entry with `idx` and `term`.
pub open spec fn entry_refusal(last: (u64, u64), idx: u64, term: u64) -> Option<LogError> {
    if term < last.1 {
        Some(LogError::TermViolation { entry_term: term, last_term: last.1 })
    } else if term == last.1 && idx <= last.0 {
        Some(LogError::IndexViolation { entry_term: term, entry_idx: idx, last_term: last.1, last_idx: last.0 })
    } else {
        None
    }
}

/// An entry of a request, as the request log holds it.
pub open spec fn as_entry(e: consistent_log::LogEntry) -> LogEntry {
    LogEntry { idx: e.idx, term: e.term, data: e.data, uuid: e.uuid }
}

/// The log after taking `es` one by one, stopping at the first refused
/// entry, and the answer.
pub open spec fn append_run(s: RequestLogState, es: Seq<consistent_log::LogEntry>) -> (
    RequestLogState,
    Result<(), LogError>,
)
    decreases es.len(),
{
    if es.len() == 0 {
        (s, Ok(()))
    } else {
        match entry_refusal(last_entry(s), es[0].idx, es[0].term) {
            Some(err) => (s, Err(err)),
            None => append_run(
                RequestLogState { entries: s.entries.push(as_entry(es[0])), ..s },
                es.drop_first(),
            ),
        }
    }
}

/// The log after an AppendEntries request, and the answer.
pub open spec fn after_request(s: RequestLogState, req: AppendEntriesRequest) -> (
    RequestLogState,
    Result<(), LogError>,
) {
    if req.prev_log_idx != s.start_idx {
        (s, Err(LogError::PrevLogIdxMismatch { start_idx: s.start_idx }))
    } else if req.prev_log_term != s.start_term {
        (s, Err(LogError::TermMismatch { start_term: s.start_term }))
    } else {
        append_run(s, req.entries@)
    }
}

/// The position of the first line, among the decoded lines of a log file,
/// whose idx is `entry_idx`, or the number of lines if there is none.
pub open spec fn first_with_idx(lines: Seq<LogEntry>, entry_idx: u64) -> int
    decreases lines.len(),
{
    if lines.len() == 0 {
        0
    } else if lines[0].idx == entry_idx {
        0
    } else {
        1 + first_with_idx(lines.drop_first(), entry_idx)
    }
}

impl Log {
    /// A log for the file at `path`, whose last entry (when the file exists
    /// and its last line decodes) is `last_entry`.
    pub fn new(path: String, last_entry: Option<LogEntry>) -> (lg: Log)
        ensures
            lg.path == path,
            lg.entries@.len() == 0,
            lg.commit_idx == lg.start_idx,
            match last_entry {
                Some(e) => lg.start_idx == e.idx && lg.start_term == e.term,
                None => lg.start_idx == 0 && lg.start_term == 0,
            },
    {
        let (idx, term) = match last_entry {
            Some(e) => (e.idx, e.term),
            None => (0, 0),
        };
        Log { path, entries: Vec::new(), commit_idx: idx, start_idx: idx, start_term: term }
    }

    /// Takes the entries of a request, when the request's previous entry is
    /// the entry the log was opened at; stops at the first entry that is
    /// refused.
    pub fn append_entries(&mut self, aereq: &AppendEntriesRequest) -> (r: Result<(), LogError>)
        ensures
            (final(self)@, r) == after_request(old(self)@, *aereq),
            final(self).path == old(self).path,
            final(self).commit_idx == old(self).commit_idx,
    {
        if aereq.prev_log_idx != self.start_idx {
            return Err(LogError::PrevLogIdxMismatch { start_idx: self.start_idx });
        }
        if aereq.prev_log_term != self.start_term {
            return Err(LogError::TermMismatch { start_term: self.start_term });
        }
        let ghost first = self@;
        let mut i: usize = 0;
        assert(aereq.entries@.skip(0) =~= aereq.entries@);
        while i < aereq.entries.len()
            invariant
                i <= aereq.entries.len(),
                append_run(first, aereq.entries@) == append_run(self@, aereq.entries@.skip(i as int)),
                after_request(old(self)@, *aereq) == append_run(first, aereq.entries@),
                self.path == old(self).path,
                self.commit_idx == old(self).commit_idx,
            decreases aereq.entries.len() - i,
        {
            let ghost rest = aereq.entries@.skip(i as int);
            assert(rest[0] == aereq.entries@[i as int]);
            assert(rest.drop_first() =~= aereq.entries@.skip(i + 1));
            let entry = LogEntry::from_replicated(&aereq.entries[i]);
            assert(entry == as_entry(rest[0]));
            let ghost before = self@;
            match self.append_entry(&entry) {
                Ok(()) => {
                    assert(self@ == RequestLogState { entries: before.entries.push(as_entry(rest[0])), ..before });
                },
                Err(e) => {
                    return Err(e);
                },
            }
            i += 1;
        }
        assert(aereq.entries@.skip(i as int) =~= Seq::<consistent_log::LogEntry>::empty());
        Ok(())
    }

    /// Takes one entry as the last entry of the log, unless its term is
    /// earlier than the term of the log's last entry or, in the same term,
    /// its idx is not after that entry's idx.
    pub fn append_entry(&mut self, entry: &LogEntry) -> (r: Result<(), LogError>)
        ensures
            match entry_refusal(last_entry(old(self)@), entry.idx, entry.term) {
                Some(e) => r == Err::<(), LogError>(e) && *final(self) == *old(self),
                None => r == Ok::<(), LogError>(()) && final(self)@ == RequestLogState {
                    entries: old(self)@.entries.push(*entry),
                    ..old(self)@
                },
            },
            final(self).path == old(self).path,
            final(self).commit_idx == old(self).commit_idx,
    {
        let n = self.entries.len();
        let (last_idx, last_term) = if n == 0 {
            (self.start_idx, self.start_term)
        } else {
            (self.entries[n - 1].idx, self.entries[n - 1].term)
        };
        if entry.term < last_term {
            return Err(LogError::TermViolation { entry_term: entry.term, last_term });
        } else if entry.term == last_term && entry.idx <= last_idx {
            return Err(
                LogError::IndexViolation { entry_term: entry.term, entry_idx: entry.idx, last_term, last_idx },
            );
        }
        self.entries.push(
            LogEntry { idx: entry.idx, term: entry.term, data: entry.data.clone(), uuid: entry.uuid.clone() },
        );
        Ok(())
    }
}

/// Among the decoded lines of a log file, the position of the first whose
/// idx is that of `entry` (the number of lines when there is none).
/// Truncating the log at `entry` keeps the lines before that position.
pub fn truncation_point(lines: &Vec<LogEntry>, entry: &LogEntry) -> (k: usize)
    ensures
        k as int == first_with_idx(lines@, entry.idx),
        k <= lines.len(),
        forall|i: int| 0 <= i < k ==> #[trigger] lines@[i].idx != entry.idx,
        k < lines.len() ==> lines@[k as int].idx == entry.idx,
{
    let mut k: usize = 0;
    assert(lines@.skip(0) =~= lines@);
    while k < lines.len()
        invariant
            k <= lines.len(),
            first_with_idx(lines@, entry.idx) == k + first_with_idx(lines@.skip(k as int), entry.idx),
            forall|i: int| 0 <= i < k ==> #[trigger] lines@[i].idx != entry.idx,
        decreases lines.len() - k,
    {
        if lines[k].idx == entry.idx {
            assert(lines@.skip(k as int)[0] == lines@[k as int]);
            return k;
        }
        assert(lines@.skip(k as int).drop_first() =~= lines@.skip(k + 1));
        k += 1;
    }
    k
}

} // verus!
