//! The replicated log of a Raft node.
//!
//! `Log` keeps the idx and term of the last entry in the log and a cache
//! of the entries logged since it was opened.  The first valid term and
//! idx is 1; a term or idx of 0 means "unknown".  The log file itself is
//! written by the caller: each change that the log makes is queued as a
//! `LogWrite` (an entry to write at the end of the file, or a truncation),
//! and `truncation_point` tells which lines of the file survive a
//! truncation.
use vstd::prelude::*;

use super::events::append_entries::AppendEntriesReq;

verus! {

/// One entry of the replicated log.
#[derive(Debug, PartialEq, Eq)]
pub struct LogEntry {
    /// raft idx in the log
    pub idx: u64,
    /// raft term in the log
    pub term: u64,
    /// data or "command" to log
    pub data: String,
    /// unique id from the client
    pub uuid: String,
}

impl Clone for LogEntry {
    fn clone(&self) -> (r: Self)
        ensures
            r == *self,
    {
        LogEntry {
            idx: self.idx,
            term: self.term,
            data: self.data.clone(),
            uuid: self.uuid.clone(),
        }
    }
}

/// Why the log refused a request or an entry.  The numbers are those of
/// the log when the refusal was made (after any truncation it caused).
#[derive(Debug, PartialEq, Eq, Clone, Copy)]
pub enum LogError {
    /// The request's prev_log_idx is behind the log; the log was
    /// truncated at prev_log_idx + 1.
    PrevLogIdxBehind { prev_log_idx: u64, log_idx: u64 },
    /// The request's prev_log_idx is behind the log, but the log already
    /// holds every entry of the request (a request sent again); the log is
    /// left as it is.
    AlreadyLogged { prev_log_idx: u64, log_idx: u64 },
    /// The request's prev_log_idx is ahead of the log.
    PrevLogIdxAhead { prev_log_idx: u64, log_idx: u64 },
    /// The terms differ at prev_log_idx; the log was truncated at
    /// prev_log_idx.
    TermMismatch { prev_log_term: u64, log_term: u64 },
    /// The entry's term is earlier than the log's term.
    TermViolation { entry_term: u64, log_term: u64 },
    /// The entry's idx is not after the log's idx in the same term.
    IndexViolation { entry_term: u64, entry_idx: u64, log_term: u64, log_idx: u64 },
}

/// A change to make to the log file, in the order the log made it.
#[derive(Debug, PartialEq, Eq)]
pub enum LogWrite {
    /// Write the entry, as one line, at the end of the file.
    Append(LogEntry),
    /// Drop the line of the entry with this idx and every line after it.
    TruncateAt(u64),
}

/// The log of a Raft node (the file handle stays with the caller).
pub struct Log {
    /// path of the log file
    pub path: String,
    /// idx of the last entry in the log; may be ahead of the commit idx
    pub idx: u64,
    /// term of the last entry in the log
    pub term: u64,
    /// the entries logged since the log was opened
    pub logentries: Vec<LogEntry>,
    /// the changes to the log file that the caller has not made yet
    pub writes: Vec<LogWrite>,
}

/// What a `Log` stands for: the idx and term of its last entry and the
/// cached entries.
pub struct LogState {
    pub idx: u64,
    pub term: u64,
    pub entries: Seq<LogEntry>,
}

impl View for Log {
    type V = LogState;

    open spec fn view(&self) -> LogState {
        LogState { idx: self.idx, term: self.term, entries: self.logentries@ }
    }
}

/// The reason, if any, for which the log in state `s` refuses `e` as its
/// next entry.
pub open spec fn entry_refusal(s: LogState, e: LogEntry) -> Option<LogError> {
    if e.term < s.term {
        Some(LogError::TermViolation { entry_term: e.term, log_term: s.term })
    } else if e.term == s.term && e.idx <= s.idx && e.idx != 0 {
        Some(
            LogError::IndexViolation {
                entry_term: e.term,
                entry_idx: e.idx,
                log_term: s.term,
                log_idx: s.idx,
            },
        )
    } else {
        None
    }
}

/// The log after `e` is appended to it.
pub open spec fn after_append(s: LogState, e: LogEntry) -> LogState {
    LogState { idx: e.idx, term: e.term, entries: s.entries.push(e) }
}

/// The cached entries kept by a truncation at `entry_idx`: the cache is cut
/// to its first `entry_idx - 1` entries when it is longer than that.
pub open spec fn truncated_entries(entries: Seq<LogEntry>, entry_idx: u64) -> Seq<LogEntry> {
    if entry_idx >= 1 && entry_idx - 1 < entries.len() {
        entries.take(entry_idx - 1)
    } else {
        entries
    }
}

/// The log after a truncation at `entry_idx`: the cache is cut, and the
/// idx and term become those of its last entry (0 and 0 when it is empty).
pub open spec fn after_truncate(s: LogState, entry_idx: u64) -> LogState {
    let es = truncated_entries(s.entries, entry_idx);
    if es.len() == 0 {
        LogState { idx: 0, term: 0, entries: es }
    } else {
        LogState { idx: es.last().idx, term: es.last().term, entries: es }
    }
}

/// Appending `es` one by one, stopping at the first refused entry.
pub open spec fn append_run(s: LogState, es: Seq<LogEntry>) -> (LogState, Result<(), LogError>)
    decreases es.len(),
{
    if es.len() == 0 {
        (s, Ok(()))
    } else {
        match entry_refusal(s, es[0]) {
            Some(err) => (s, Err(err)),
            None => append_run(after_append(s, es[0]), es.drop_first()),
        }
    }
}

/// The file writes of appending `es` one by one: one line per entry taken.
pub open spec fn run_writes(s: LogState, es: Seq<LogEntry>) -> Seq<LogWrite>
    decreases es.len(),
{
    if es.len() == 0 {
        Seq::empty()
    } else {
        match entry_refusal(s, es[0]) {
            Some(_) => Seq::empty(),
            None => seq![LogWrite::Append(es[0])] + run_writes(after_append(s, es[0]), es.drop_first()),
        }
    }
}

/// The log holds an entry with the idx and term of `e`.
pub open spec fn holds_entry(entries: Seq<LogEntry>, e: LogEntry) -> bool {
    exists|j: int| 0 <= j < entries.len() && entries[j].idx == e.idx && entries[j].term == e.term
}

/// `es` has entries, and the log holds every one of them.
pub open spec fn already_logged(entries: Seq<LogEntry>, es: Seq<LogEntry>) -> bool {
    &&& es.len() > 0
    &&& forall|i: int| 0 <= i < es.len() ==> #[trigger] holds_entry(entries, es[i])
}

/// The file writes of an AppendEntries request: the truncation it causes,
/// or the lines of the entries the log takes.
pub open spec fn request_writes(s: LogState, prev_log_idx: u64, prev_log_term: u64, es: Seq<LogEntry>) -> Seq<
    LogWrite,
> {
    if prev_log_idx < s.idx {
        if already_logged(s.entries, es) {
            Seq::empty()
        } else {
            seq![LogWrite::TruncateAt((prev_log_idx + 1) as u64)]
        }
    } else if prev_log_idx > s.idx {
        Seq::empty()
    } else if prev_log_term != s.term && s.term != 0 {
        seq![LogWrite::TruncateAt(prev_log_idx)]
    } else {
        run_writes(s, es)
    }
}

/// The log, and the answer, after an AppendEntries request whose previous
/// entry is `prev_log_idx`/`prev_log_term` and whose entries are `es`.
pub open spec fn after_request(s: LogState, prev_log_idx: u64, prev_log_term: u64, es: Seq<LogEntry>) -> (
    LogState,
    Result<(), LogError>,
) {
    if prev_log_idx < s.idx {
        if already_logged(s.entries, es) {
            (s, Err(LogError::AlreadyLogged { prev_log_idx, log_idx: s.idx }))
        } else {
            let t = after_truncate(s, (prev_log_idx + 1) as u64);
            (t, Err(LogError::PrevLogIdxBehind { prev_log_idx, log_idx: t.idx }))
        }
    } else if prev_log_idx > s.idx {
        (s, Err(LogError::PrevLogIdxAhead { prev_log_idx, log_idx: s.idx }))
    } else if prev_log_term != s.term && s.term != 0 {
        let t = after_truncate(s, prev_log_idx);
        (t, Err(LogError::TermMismatch { prev_log_term, log_term: t.term }))
    } else {
        append_run(s, es)
    }
}

/// The position of the first line, among the decoded lines of a log file,
/// whose idx is `entry_idx`, or the number of lines if there is none.
pub open spec fn first_with_idx(lines: Seq<LogEntry>, entry_idx: u64) -> int
    decreases lines.len(),
{
    if lines.len() == 0 {
        0
    } else if lines[0].idx == entry_idx {
        0
    } else {
        1 + first_with_idx(lines.drop_first(), entry_idx)
    }
}

impl Log {
    /// A log for the file at `path`, whose last entry (when the file exists
    /// and its last line decodes) is `last_entry`.
    pub fn new(path: String, last_entry: Option<LogEntry>) -> (lg: Log)
        ensures
            lg.path == path,
            lg@.entries.len() == 0,
            lg.writes@.len() == 0,
            match last_entry {
                Some(e) => lg.idx == e.idx && lg.term == e.term,
                None => lg.idx == 0 && lg.term == 0,
            },
    {
        let (idx, term) = match last_entry {
            Some(e) => (e.idx, e.term),
            None => (0, 0),
        };
        Log { path, idx, term, logentries: Vec::new(), writes: Vec::new() }
    }

    /// Appends the entries of an AppendEntries request, or truncates the
    /// log when the request shows that it holds entries the leader does not
    /// have.  The request's previous entry must be the last entry of the log.
    pub fn append_entries(&mut self, aereq: &AppendEntriesReq) -> (r: Result<(), LogError>)
        ensures
            (final(self)@, r) == after_request(
                old(self)@,
                aereq.prev_log_idx,
                aereq.prev_log_term,
                aereq.entries@,
            ),
            final(self).writes@ == old(self).writes@ + request_writes(
                old(self)@,
                aereq.prev_log_idx,
                aereq.prev_log_term,
                aereq.entries@,
            ),
            final(self).path == old(self).path,
    {
        self.apply_request(aereq.prev_log_idx, aereq.prev_log_term, &aereq.entries)
    }

    /// The work of `append_entries`, on the request's previous entry and
    /// entries.
    pub fn apply_request(&mut self, prev_log_idx: u64, prev_log_term: u64, entries: &Vec<LogEntry>) -> (r:
        Result<(), LogError>)
        ensures
            (final(self)@, r) == after_request(old(self)@, prev_log_idx, prev_log_term, entries@),
            final(self).writes@ == old(self).writes@ + request_writes(
                old(self)@,
                prev_log_idx,
                prev_log_term,
                entries@,
            ),
            final(self).path == old(self).path,
    {
        if prev_log_idx < self.idx {
            if all_logged(&self.logentries, entries) {
                assert(self.writes@ + Seq::<LogWrite>::empty() =~= self.writes@);
                return Err(LogError::AlreadyLogged { prev_log_idx, log_idx: self.idx });
            }
            self.truncate(prev_log_idx + 1);
            return Err(LogError::PrevLogIdxBehind { prev_log_idx, log_idx: self.idx });
        }
        if prev_log_idx > self.idx {
            return Err(LogError::PrevLogIdxAhead { prev_log_idx, log_idx: self.idx });
        }
        if prev_log_term != self.term && self.term != 0 {
            self.truncate(prev_log_idx);
            return Err(LogError::TermMismatch { prev_log_term, log_term: self.term });
        }
        let ghost start = self@;
        let mut i: usize = 0;
        assert(entries@.skip(0) =~= entries@);
        assert(self.writes@ =~= old(self).writes@);
        while i < entries.len()
            invariant
                i <= entries.len(),
                append_run(start, entries@) == append_run(self@, entries@.skip(i as int)),
                after_request(old(self)@, prev_log_idx, prev_log_term, entries@) == append_run(
                    start,
                    entries@,
                ),
                old(self).writes@ + request_writes(old(self)@, prev_log_idx, prev_log_term, entries@)
                    == self.writes@ + run_writes(self@, entries@.skip(i as int)),
                self.path == old(self).path,
            decreases entries.len() - i,
        {
            let ghost rest = entries@.skip(i as int);
            assert(rest[0] == entries@[i as int]);
            assert(rest.drop_first() =~= entries@.skip(i + 1));
            let ghost w0 = self.writes@;
            let ghost s0 = self@;
            match self.append_entry(&entries[i]) {
                Ok(()) => {
                    assert(w0 + run_writes(s0, rest) =~= self.writes@ + run_writes(
                        self@,
                        rest.drop_first(),
                    ));
                },
                Err(e) => {
                    assert(run_writes(s0, rest) =~= Seq::<LogWrite>::empty());
                    assert(w0 =~= w0 + Seq::<LogWrite>::empty());
                    return Err(e);
                },
            }
            i += 1;
        }
        assert(entries@.skip(i as int) =~= Seq::<LogEntry>::empty());
        assert(self.writes@ + Seq::<LogWrite>::empty() =~= self.writes@);
        Ok(())
    }

    /// Appends one entry to the end of the log, unless its term is earlier
    /// than the log's term or its idx is not after the log's idx in the
    /// same term (an idx of 0 is always taken).  A refused entry leaves the
    /// log as it was.
    pub fn append_entry(&mut self, entry: &LogEntry) -> (r: Result<(), LogError>)
        ensures
            match entry_refusal(old(self)@, *entry) {
                Some(e) => r == Err::<(), LogError>(e) && final(self)@ == old(self)@
                    && final(self).writes@ == old(self).writes@,
                None => r == Ok::<(), LogError>(()) && final(self)@ == after_append(old(self)@, *entry)
                    && final(self).writes@ == old(self).writes@.push(LogWrite::Append(*entry)),
            },
            final(self).path == old(self).path,
    {
        if entry.term < self.term {
            return Err(LogError::TermViolation { entry_term: entry.term, log_term: self.term });
        } else if entry.term == self.term && entry.idx <= self.idx && entry.idx != 0 {
            return Err(
                LogError::IndexViolation {
                    entry_term: entry.term,
                    entry_idx: entry.idx,
                    log_term: self.term,
                    log_idx: self.idx,
                },
            );
        }
        self.idx = entry.idx;
        self.term = entry.term;
        self.logentries.push(entry.clone());
        self.writes.push(LogWrite::Append(entry.clone()));
        Ok(())
    }

    /// Hands out the queued file writes, oldest first, and empties the queue.
    pub fn take_writes(&mut self) -> (ws: Vec<LogWrite>)
        ensures
            ws@ == old(self).writes@,
            final(self).writes@.len() == 0,
            final(self)@ == old(self)@,
            final(self).path == old(self).path,
    {
        let mut ws: Vec<LogWrite> = Vec::new();
        std::mem::swap(&mut ws, &mut self.writes);
        ws
    }

    /// Truncates the cached entries at `entry_idx` (the cache is taken to
    /// hold idx 1, 2, ... in order) and makes the idx and term those of the
    /// last cached entry, or 0 and 0 when none is left.
    pub fn truncate(&mut self, entry_idx: u64)
        ensures
            final(self)@ == after_truncate(old(self)@, entry_idx),
            final(self).writes@ == old(self).writes@.push(LogWrite::TruncateAt(entry_idx)),
            final(self).path == old(self).path,
    {
        self.writes.push(LogWrite::TruncateAt(entry_idx));
        if entry_idx >= 1 && entry_idx - 1 < self.logentries.len() as u64 {
            self.logentries.truncate((entry_idx - 1) as usize);
            assert(self.logentries@ =~= old(self).logentries@.take(entry_idx - 1));
        }
        let n = self.logentries.len();
        if n == 0 {
            self.idx = 0;
            self.term = 0;
        } else {
            self.idx = self.logentries[n - 1].idx;
            self.term = self.logentries[n - 1].term;
        }
    }
}

/// Whether `es` has entries and `cache` holds every one of them (an entry
/// with the same idx and term).
fn all_logged(cache: &Vec<LogEntry>, es: &Vec<LogEntry>) -> (r: bool)
    ensures
        r == already_logged(cache@, es@),
{
    if es.len() == 0 {
        return false;
    }
    let mut i: usize = 0;
    while i < es.len()
        invariant
            i <= es.len(),
            forall|k: int| 0 <= k < i ==> #[trigger] holds_entry(cache@, es@[k]),
        decreases es.len() - i,
    {
        let mut found = false;
        let mut j: usize = 0;
        while j < cache.len()
            invariant
                j <= cache.len(),
                i < es.len(),
                found ==> holds_entry(cache@, es@[i as int]),
                !found ==> forall|m: int| 0 <= m < j ==> !(cache@[m].idx == es@[i as int].idx
                    && cache@[m].term == es@[i as int].term),
            decreases cache.len() - j,
        {
            if cache[j].idx == es[i].idx && cache[j].term == es[i].term {
                found = true;
            }
            j += 1;
        }
        if !found {
            assert(!holds_entry(cache@, es@[i as int]));
            return false;
        }
        i += 1;
    }
    true
}

/// Among the decoded lines of a log file, the position of the first whose
/// idx is `entry_idx` (the number of lines when there is none).  A
/// truncation at `entry_idx` keeps the lines before that position.
pub fn truncation_point(lines: &Vec<LogEntry>, entry_idx: u64) -> (k: usize)
    ensures
        k as int == first_with_idx(lines@, entry_idx),
        k <= lines.len(),
        forall|i: int| 0 <= i < k ==> #[trigger] lines@[i].idx != entry_idx,
        k < lines.len() ==> lines@[k as int].idx == entry_idx,
{
    let mut k: usize = 0;
    assert(lines@.skip(0) =~= lines@);
    while k < lines.len()
        invariant
            k <= lines.len(),
            first_with_idx(lines@, entry_idx) == k + first_with_idx(lines@.skip(k as int), entry_idx),
            forall|i: int| 0 <= i < k ==> #[trigger] lines@[i].idx != entry_idx,
        decreases lines.len() - k,
    {
        if lines[k].idx == entry_idx {
            assert(lines@.skip(k as int)[0] == lines@[k as int]);
            return k;
        }
        assert(lines@.skip(k as int).drop_first() =~= lines@.skip(k + 1));
        k += 1;
    }
    k
}

/// A log whose cache holds the entries with idx 1, 2, ..., n in that order,
/// and whose idx and term are those of its last cached entry (0 and 0 when
/// the cache is empty): the shape of a log that was opened empty.
pub open spec fn is_dense(s: LogState) -> bool {
    &&& forall|i: int| 0 <= i < s.entries.len() ==> #[trigger] s.entries[i].idx == i + 1
    &&& s.idx == s.entries.len()
    &&& (s.entries.len() == 0 ==> s.term == 0)
    &&& (s.entries.len() > 0 ==> s.term == s.entries.last().term)
}

/// `es` continues the log `s`: the idx of its entries are `s.idx + 1`,
/// `s.idx + 2`, ... and their terms start no earlier than the log's term
/// and never go down.
pub open spec fn continues(s: LogState, es: Seq<LogEntry>) -> bool {
    &&& forall|j: int| 0 <= j < es.len() ==> #[trigger] es[j].idx == s.idx + j + 1
    &&& forall|j: int| 0 <= j < es.len() ==> s.term <= #[trigger] es[j].term
    &&& forall|j: int, k: int| 0 <= j <= k < es.len() ==> es[j].term <= es[k].term
}

proof fn lemma_append_run_ok(s: LogState, es: Seq<LogEntry>)
    requires
        append_run(s, es).1 is Ok,
    ensures
        append_run(s, es).0.entries == s.entries + es,
        es.len() > 0 ==> append_run(s, es).0.idx == es.last().idx && append_run(s, es).0.term
            == es.last().term,
        es.len() == 0 ==> append_run(s, es).0 == s,
    decreases es.len(),
{
    if es.len() > 0 {
        let s1 = after_append(s, es[0]);
        lemma_append_run_ok(s1, es.drop_first());
        assert(s.entries.push(es[0]) + es.drop_first() =~= s.entries + es);
        if es.len() > 1 {
            assert(es.drop_first().last() == es.last());
        }
    }
}

proof fn lemma_append_run_dense(s: LogState, es: Seq<LogEntry>)
    requires
        is_dense(s),
        continues(s, es),
    ensures
        append_run(s, es).1 is Ok,
        is_dense(append_run(s, es).0),
        append_run(s, es).0.idx == s.idx + es.len(),
    decreases es.len(),
{
    if es.len() > 0 {
        let e = es[0];
        assert(e.idx == s.idx + 1);
        assert(entry_refusal(s, e) is None);
        let s1 = after_append(s, e);
        assert(is_dense(s1)) by {
            assert forall|i: int| 0 <= i < s1.entries.len() implies #[trigger] s1.entries[i].idx
                == i + 1 by {
                if i < s.entries.len() {
                    assert(s1.entries[i] == s.entries[i]);
                }
            }
        }
        let rest = es.drop_first();
        assert(continues(s1, rest)) by {
            assert forall|j: int| 0 <= j < rest.len() implies #[trigger] rest[j].idx == s1.idx + j
                + 1 by {
                assert(rest[j] == es[j + 1]);
            }
            assert forall|j: int| 0 <= j < rest.len() implies s1.term <= #[trigger] rest[j].term by {
                assert(rest[j] == es[j + 1]);
            }
            assert forall|j: int, k: int| 0 <= j <= k < rest.len() implies rest[j].term
                <= rest[k].term by {
                assert(rest[j] == es[j + 1]);
                assert(rest[k] == es[k + 1]);
            }
        }
        lemma_append_run_dense(s1, rest);
    }
}

/// When the log takes an AppendEntries request, the request's entries are
/// appended after the cached ones, and the log's last entry becomes the
/// request's last entry (a request with no entries leaves the log as it was).
pub proof fn lemma_accepted_request_appends(
    s: LogState,
    prev_log_idx: u64,
    prev_log_term: u64,
    es: Seq<LogEntry>,
)
    requires
        after_request(s, prev_log_idx, prev_log_term, es).1 is Ok,
    ensures
        after_request(s, prev_log_idx, prev_log_term, es).0.entries == s.entries + es,
        es.len() > 0 ==> after_request(s, prev_log_idx, prev_log_term, es).0.idx == es.last().idx
            && after_request(s, prev_log_idx, prev_log_term, es).0.term == es.last().term,
        es.len() == 0 ==> after_request(s, prev_log_idx, prev_log_term, es).0 == s,
{
    lemma_append_run_ok(s, es);
}

/// A request that the log took is refused when it comes again (as long as
/// its entries reach beyond its previous entry), and the log is left as it
/// is: it already holds every entry of the request, so nothing is truncated
/// and nothing is written to its file.
pub proof fn lemma_replayed_request_refused(
    s: LogState,
    prev_log_idx: u64,
    prev_log_term: u64,
    es: Seq<LogEntry>,
)
    requires
        after_request(s, prev_log_idx, prev_log_term, es).1 is Ok,
        es.len() > 0,
        es.last().idx > prev_log_idx,
    ensures
        ({
            let t = after_request(s, prev_log_idx, prev_log_term, es).0;
            &&& after_request(t, prev_log_idx, prev_log_term, es) == (
                t,
                Err::<(), LogError>(LogError::AlreadyLogged { prev_log_idx, log_idx: t.idx }),
            )
            &&& request_writes(t, prev_log_idx, prev_log_term, es).len() == 0
        }),
{
    lemma_append_run_ok(s, es);
    let t = after_request(s, prev_log_idx, prev_log_term, es).0;
    assert forall|i: int| 0 <= i < es.len() implies #[trigger] holds_entry(t.entries, es[i]) by {
        assert(t.entries[s.entries.len() + i] == es[i]);
    }
}

/// A log that was opened empty takes a request whose previous entry is its
/// last entry and whose entries continue it: every entry is appended and
/// the log keeps its shape.
pub proof fn lemma_continuation_accepted(
    s: LogState,
    prev_log_idx: u64,
    prev_log_term: u64,
    es: Seq<LogEntry>,
)
    requires
        is_dense(s),
        prev_log_idx == s.idx,
        prev_log_term == s.term || s.term == 0,
        continues(s, es),
    ensures
        after_request(s, prev_log_idx, prev_log_term, es).1 is Ok,
        is_dense(after_request(s, prev_log_idx, prev_log_term, es).0),
        after_request(s, prev_log_idx, prev_log_term, es).0.idx == s.idx + es.len(),
{
    lemma_append_run_dense(s, es);
}

/// When the leader is behind a log that was opened empty (its previous
/// entry comes before the log's last entry) and the request brings an
/// entry the log does not hold (a heartbeat always does), the log drops
/// every entry after the leader's previous entry and refuses the request;
/// it then ends at that entry, so that the leader can go on from there.
pub proof fn lemma_leader_behind_truncates(
    s: LogState,
    prev_log_idx: u64,
    prev_log_term: u64,
    es: Seq<LogEntry>,
)
    requires
        is_dense(s),
        prev_log_idx < s.idx,
        !already_logged(s.entries, es),
    ensures
        after_request(s, prev_log_idx, prev_log_term, es).1 is Err,
        is_dense(after_request(s, prev_log_idx, prev_log_term, es).0),
        after_request(s, prev_log_idx, prev_log_term, es).0.idx == prev_log_idx,
        after_request(s, prev_log_idx, prev_log_term, es).0.entries == s.entries.take(
            prev_log_idx as int,
        ),
{
    let t = after_request(s, prev_log_idx, prev_log_term, es).0;
    assert(t.entries == s.entries.take(prev_log_idx as int));
    if prev_log_idx > 0 {
        assert(t.entries.last() == s.entries[prev_log_idx - 1]);
    }
}

/// When the leader is ahead of the log (its previous entry comes after the
/// log's last entry), the log refuses the request, tells where it ends, and
/// is left as it was, with nothing to write to its file.
pub proof fn lemma_leader_ahead_refused(s: LogState, prev_log_idx: u64, prev_log_term: u64, es: Seq<LogEntry>)
    requires
        prev_log_idx > s.idx,
    ensures
        after_request(s, prev_log_idx, prev_log_term, es) == (
            s,
            Err::<(), LogError>(LogError::PrevLogIdxAhead { prev_log_idx, log_idx: s.idx }),
        ),
        request_writes(s, prev_log_idx, prev_log_term, es).len() == 0,
{
}

/// When the terms differ at the leader's previous entry, which is the last
/// entry of a log that was opened empty, the log drops that entry and
/// refuses the request, so that the leader can go back one entry.
pub proof fn lemma_term_mismatch_drops_last(
    s: LogState,
    prev_log_idx: u64,
    prev_log_term: u64,
    es: Seq<LogEntry>,
)
    requires
        is_dense(s),
        prev_log_idx == s.idx,
        prev_log_term != s.term,
        s.term != 0,
    ensures
        after_request(s, prev_log_idx, prev_log_term, es).1 is Err,
        is_dense(after_request(s, prev_log_idx, prev_log_term, es).0),
        after_request(s, prev_log_idx, prev_log_term, es).0.idx == prev_log_idx - 1,
        after_request(s, prev_log_idx, prev_log_term, es).0.entries == s.entries.take(
            prev_log_idx - 1,
        ),
{
    let t = after_request(s, prev_log_idx, prev_log_term, es).0;
    assert(s.entries.len() > 0);
    assert(t.entries == s.entries.take(prev_log_idx - 1));
    if prev_log_idx > 1 {
        assert(t.entries.last() == s.entries[prev_log_idx - 2]);
    }
}

proof fn lemma_first_with_idx_dense(lines: Seq<LogEntry>, off: int, entry_idx: u64)
    requires
        off >= 0,
        forall|i: int| 0 <= i < lines.len() ==> #[trigger] lines[i].idx == off + i + 1,
    ensures
        first_with_idx(lines, entry_idx) == (if off + 1 <= entry_idx && entry_idx - off - 1
            < lines.len() {
            entry_idx - off - 1
        } else {
            lines.len() as int
        }),
    decreases lines.len(),
{
    if lines.len() > 0 {
        let rest = lines.drop_first();
        assert forall|i: int| 0 <= i < rest.len() implies #[trigger] rest[i].idx == (off + 1) + i
            + 1 by {
            assert(rest[i] == lines[i + 1]);
        }
        lemma_first_with_idx_dense(rest, off + 1, entry_idx);
    }
}

/// For a log that was opened empty, the file holds the cached entries, and
/// a truncation at any idx from 1 on keeps the same entries in the file
/// as in the cache.
pub proof fn lemma_file_and_cache_truncate_alike(s: LogState, entry_idx: u64)
    requires
        is_dense(s),
        entry_idx >= 1,
    ensures
        s.entries.take(first_with_idx(s.entries, entry_idx)) == truncated_entries(
            s.entries,
            entry_idx,
        ),
{
    lemma_first_with_idx_dense(s.entries, 0, entry_idx);
    if !(entry_idx - 1 < s.entries.len()) {
        assert(s.entries.take(s.entries.len() as int) =~= s.entries);
    }
}

/// The lines of a log file after the writes `ws` are made on it, in order.
pub open spec fn apply_writes(lines: Seq<LogEntry>, ws: Seq<LogWrite>) -> Seq<LogEntry>
    decreases ws.len(),
{
    if ws.len() == 0 {
        lines
    } else {
        let next = match ws[0] {
            LogWrite::Append(e) => lines.push(e),
            LogWrite::TruncateAt(k) => lines.take(first_with_idx(lines, k)),
        };
        apply_writes(next, ws.drop_first())
    }
}

proof fn lemma_apply_one(lines: Seq<LogEntry>, w: LogWrite, rest: Seq<LogWrite>)
    ensures
        apply_writes(lines, seq![w] + rest) == apply_writes(
            match w {
                LogWrite::Append(e) => lines.push(e),
                LogWrite::TruncateAt(k) => lines.take(first_with_idx(lines, k)),
            },
            rest,
        ),
{
    let ws = seq![w] + rest;
    assert(ws[0] == w);
    assert(ws.drop_first() =~= rest);
}

proof fn lemma_run_writes_apply(s: LogState, es: Seq<LogEntry>)
    ensures
        apply_writes(s.entries, run_writes(s, es)) == append_run(s, es).0.entries,
    decreases es.len(),
{
    if es.len() > 0 {
        if entry_refusal(s, es[0]) is None {
            let s1 = after_append(s, es[0]);
            lemma_run_writes_apply(s1, es.drop_first());
            lemma_apply_one(s.entries, LogWrite::Append(es[0]), run_writes(s1, es.drop_first()));
        }
    }
}

/// For a log that was opened empty and whose file holds its cached entries,
/// making the file writes that an AppendEntries request queued leaves the
/// file holding the cached entries again, whether the log took the request,
/// refused it, or was truncated by it.
pub proof fn lemma_file_follows_cache(s: LogState, prev_log_idx: u64, prev_log_term: u64, es: Seq<LogEntry>)
    requires
        is_dense(s),
    ensures
        apply_writes(s.entries, request_writes(s, prev_log_idx, prev_log_term, es)) == after_request(
            s,
            prev_log_idx,
            prev_log_term,
            es,
        ).0.entries,
{
    if prev_log_idx < s.idx && already_logged(s.entries, es) {
    } else if prev_log_idx < s.idx {
        let k = (prev_log_idx + 1) as u64;
        lemma_apply_one(s.entries, LogWrite::TruncateAt(k), Seq::empty());
        assert(seq![LogWrite::TruncateAt(k)] + Seq::<LogWrite>::empty() =~= seq![LogWrite::TruncateAt(k)]);
        lemma_file_and_cache_truncate_alike(s, k);
    } else if prev_log_idx > s.idx {
    } else if prev_log_term != s.term && s.term != 0 {
        lemma_apply_one(s.entries, LogWrite::TruncateAt(prev_log_idx), Seq::empty());
        assert(seq![LogWrite::TruncateAt(prev_log_idx)] + Seq::<LogWrite>::empty() =~= seq![
            LogWrite::TruncateAt(prev_log_idx),
        ]);
        lemma_file_and_cache_truncate_alike(s, prev_log_idx);
    } else {
        lemma_run_writes_apply(s, es);
    }
}

/// Whether the log takes an entry depends on the idx and term of its last
/// entry alone, never on what its cache holds: it refuses exactly an entry
/// of an earlier term, or one of the same term whose (nonzero) idx is not
/// after the log's idx.  So a log whose last entry is n/t, reopened or
/// not, takes the entry (n + 1)/t.
pub proof fn lemma_refusal_depends_on_last_entry(s: LogState, e: LogEntry)
    ensures
        entry_refusal(s, e) is Some <==> (e.term < s.term || (e.term == s.term && e.idx <= s.idx
            && e.idx != 0)),
        e.term == s.term && e.idx == s.idx + 1 ==> entry_refusal(s, e) is None && after_append(s, e).idx
            == e.idx && after_append(s, e).term == e.term,
        forall|t: LogState|
            t.idx == s.idx && t.term == s.term ==> #[trigger] entry_refusal(t, e) == entry_refusal(s, e),
{
}

proof fn lemma_append_run_refusals(s: LogState, es: Seq<LogEntry>)
    ensures
        !(append_run(s, es).1 matches Err(LogError::AlreadyLogged { .. })),
    decreases es.len(),
{
    if es.len() > 0 && entry_refusal(s, es[0]) is None {
        lemma_append_run_refusals(after_append(s, es[0]), es.drop_first());
    }
}

/// A request behind the log is left alone (refused with `AlreadyLogged`,
/// nothing truncated or written) only when it has entries and the log
/// holds every one of them, each with the same idx and term.  A request
/// behind the log that brings any entry the log does not hold (a heartbeat
/// among them) makes the log drop every entry after the request's previous
/// entry, queues that truncation for the file, and is refused.
pub proof fn lemma_left_alone_only_when_all_held(
    s: LogState,
    prev_log_idx: u64,
    prev_log_term: u64,
    es: Seq<LogEntry>,
)
    ensures
        (after_request(s, prev_log_idx, prev_log_term, es).1 matches Err(LogError::AlreadyLogged { .. }))
            ==> {
            &&& prev_log_idx < s.idx
            &&& es.len() > 0
            &&& forall|i: int|
                0 <= i < es.len() ==> exists|j: int|
                    0 <= j < s.entries.len() && #[trigger] s.entries[j].idx == #[trigger] es[i].idx
                        && s.entries[j].term == es[i].term
            &&& after_request(s, prev_log_idx, prev_log_term, es).0 == s
            &&& request_writes(s, prev_log_idx, prev_log_term, es).len() == 0
        },
        prev_log_idx < s.idx && !(es.len() > 0 && forall|i: int|
            0 <= i < es.len() ==> exists|j: int|
                0 <= j < s.entries.len() && #[trigger] s.entries[j].idx == #[trigger] es[i].idx
                    && s.entries[j].term == es[i].term) ==> {
            &&& after_request(s, prev_log_idx, prev_log_term, es).1 matches Err(
                LogError::PrevLogIdxBehind { .. },
            )
            &&& request_writes(s, prev_log_idx, prev_log_term, es) == seq![
                LogWrite::TruncateAt((prev_log_idx + 1) as u64),
            ]
            &&& after_request(s, prev_log_idx, prev_log_term, es).0.entries == if prev_log_idx
                < s.entries.len() {
                s.entries.take(prev_log_idx as int)
            } else {
                s.entries
            }
        },
{
    lemma_append_run_refusals(s, es);
    if prev_log_idx < s.idx && already_logged(s.entries, es) {
        assert forall|i: int| 0 <= i < es.len() implies exists|j: int|
            0 <= j < s.entries.len() && #[trigger] s.entries[j].idx == #[trigger] es[i].idx
                && s.entries[j].term == es[i].term by {
            assert(holds_entry(s.entries, es[i]));
        }
    }
    if prev_log_idx < s.idx && !already_logged(s.entries, es) {
        if es.len() > 0 {
            let i = choose|i: int| 0 <= i < es.len() && !#[trigger] holds_entry(s.entries, es[i]);
            assert(!(exists|j: int|
                0 <= j < s.entries.len() && #[trigger] s.entries[j].idx == es[i].idx
                    && s.entries[j].term == es[i].term));
        }
    }
}

} // verus!
