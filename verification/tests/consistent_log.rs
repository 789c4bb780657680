use schooner::schooner::consistent_log::{truncation_point, Log, LogEntry, LogError, LogWrite};
use schooner::schooner::events::AppendEntriesReq;
use uuid::Uuid;

fn entry(idx: u64, term: u64, data: &str, uuid: &str) -> LogEntry {
    LogEntry { idx, term, data: data.to_string(), uuid: uuid.to_string() }
}

fn aer(term: u64, prev_log_idx: u64, prev_log_term: u64, entries: Vec<LogEntry>) -> AppendEntriesReq {
    AppendEntriesReq {
        term,
        prev_log_idx,
        prev_log_term,
        commit_idx: 2,
        leader_id: 9,
        uuid: Uuid::new_v4(),
        entries,
    }
}

/// The log file as the caller keeps it: the queued writes are made on its
/// lines, an entry at the end and a truncation keeping the lines before the
/// truncation point.
struct FileLog {
    log: Log,
    lines: Vec<LogEntry>,
}

impl FileLog {
    fn new() -> FileLog {
        FileLog { log: Log::new("datalog/log.test".to_string(), None), lines: Vec::new() }
    }
    fn sync(&mut self) {
        for w in self.log.take_writes() {
            match w {
                LogWrite::Append(e) => self.lines.push(e),
                LogWrite::TruncateAt(k) => {
                    let n = truncation_point(&self.lines, k);
                    self.lines.truncate(n);
                }
            }
        }
    }
    fn append_entries(&mut self, req: &AppendEntriesReq) -> Result<(), LogError> {
        let r = self.log.append_entries(req);
        self.sync();
        r
    }
    fn truncate(&mut self, entry_idx: u64) {
        self.log.truncate(entry_idx);
        self.sync();
    }
    fn num_entries_in_test_log(&self) -> usize {
        self.lines.len()
    }
}

#[test]
fn consistent_log_test_truncate() {
    let logent1 = entry(1, 1, "a", "u01");
    let logent2 = entry(2, 1, "b", "u02");
    let logent3 = entry(3, 1, "c", "u03");
    let logent4 = entry(4, 1, "d", "u04");
    let logent5 = entry(5, 2, "e", "u05");
    let logent6 = entry(6, 2, "f", "u06");

    let mut log = FileLog::new();
    let mut req = aer(1, 0, 0, vec![logent1.clone(), logent2, logent3.clone(), logent4.clone()]);
    let result = log.append_entries(&req);
    assert!(result.is_ok());

    req = aer(2, 4, 1, vec![logent5.clone(), logent6]);
    let result = log.append_entries(&req);
    assert!(result.is_ok());
    assert_eq!(6, log.num_entries_in_test_log());

    // now truncate
    log.truncate(logent4.idx);
    assert_eq!(3, log.num_entries_in_test_log());

    log.truncate(logent3.idx);
    assert_eq!(2, log.num_entries_in_test_log());

    // try to truncate one that isn't there
    log.truncate(logent5.idx);
    assert_eq!(2, log.num_entries_in_test_log());

    // now truncate the very first entry
    log.truncate(logent1.idx);
    assert_eq!(0, log.num_entries_in_test_log());
}

#[test]
fn new_log_starts_at_last_entry_of_file() {
    let lg = Log::new("p".to_string(), Some(entry(7, 3, "x", "u")));
    assert_eq!(7, lg.idx);
    assert_eq!(3, lg.term);
    assert!(lg.logentries.is_empty());
    let empty = Log::new("p".to_string(), None);
    assert_eq!((0, 0), (empty.idx, empty.term));
}

#[test]
fn append_entry_refuses_earlier_term_and_index() {
    let mut lg = Log::new("p".to_string(), None);
    assert!(lg.append_entry(&entry(1, 2, "a", "u")).is_ok());
    assert_eq!(Err(LogError::TermViolation { entry_term: 1, log_term: 2 }), lg.append_entry(&entry(2, 1, "b", "u")));
    assert_eq!(
        Err(LogError::IndexViolation { entry_term: 2, entry_idx: 1, log_term: 2, log_idx: 1 }),
        lg.append_entry(&entry(1, 2, "c", "u"))
    );
    assert_eq!((1, 2, 1), (lg.idx, lg.term, lg.logentries.len()));
    // idx 0 is always taken
    assert!(lg.append_entry(&entry(0, 2, "d", "u")).is_ok());
    assert_eq!((0, 2, 2), (lg.idx, lg.term, lg.logentries.len()));
}

#[test]
fn leader_behind_truncates_follower() {
    // follower holds 3/1, 3/2, 3/3; leader's last entry is 3/2
    let mut lg = Log::new("p".to_string(), None);
    for i in 1..4 {
        assert!(lg.append_entry(&entry(i, 3, "x", "u")).is_ok());
    }
    let r = lg.append_entries(&aer(3, 2, 3, vec![]));
    assert_eq!(Err(LogError::PrevLogIdxBehind { prev_log_idx: 2, log_idx: 2 }), r);
    assert_eq!((2, 3, 2), (lg.idx, lg.term, lg.logentries.len()));
    // the heartbeat now matches
    assert!(lg.append_entries(&aer(3, 2, 3, vec![])).is_ok());
}

#[test]
fn leader_ahead_is_refused() {
    let mut lg = Log::new("p".to_string(), None);
    assert!(lg.append_entry(&entry(1, 3, "x", "u")).is_ok());
    let r = lg.append_entries(&aer(3, 3, 3, vec![entry(4, 3, "y", "u")]));
    assert_eq!(Err(LogError::PrevLogIdxAhead { prev_log_idx: 3, log_idx: 1 }), r);
    assert_eq!((1, 3, 1), (lg.idx, lg.term, lg.logentries.len()));
    assert!(lg.append_entries(&aer(3, 1, 3, vec![entry(2, 3, "a", "u"), entry(3, 3, "b", "u")])).is_ok());
    assert_eq!((3, 3, 3), (lg.idx, lg.term, lg.logentries.len()));
}

#[test]
fn term_mismatch_drops_the_entry() {
    // follower 2/1 2/2 2/3, leader 2/1 3/2 3/3
    let mut lg = Log::new("p".to_string(), None);
    for i in 1..4 {
        assert!(lg.append_entry(&entry(i, 2, "x", "u")).is_ok());
    }
    let r = lg.append_entries(&aer(3, 3, 3, vec![]));
    assert_eq!(Err(LogError::TermMismatch { prev_log_term: 3, log_term: 2 }), r);
    assert_eq!((2, 2), (lg.idx, lg.term));
    let r = lg.append_entries(&aer(3, 2, 3, vec![entry(3, 3, "z", "u")]));
    assert_eq!(Err(LogError::TermMismatch { prev_log_term: 3, log_term: 2 }), r);
    assert_eq!((1, 2), (lg.idx, lg.term));
    assert!(lg.append_entries(&aer(3, 1, 2, vec![entry(2, 3, "y", "u"), entry(3, 3, "z", "u")])).is_ok());
    assert_eq!((3, 3, 3), (lg.idx, lg.term, lg.logentries.len()));
}

#[test]
fn stops_at_first_refused_entry() {
    let mut lg = Log::new("p".to_string(), None);
    let r = lg.append_entries(&aer(2, 0, 0, vec![entry(1, 2, "a", "u"), entry(2, 1, "b", "u"), entry(3, 2, "c", "u")]));
    assert_eq!(Err(LogError::TermViolation { entry_term: 1, log_term: 2 }), r);
    assert_eq!((1, 2, 1), (lg.idx, lg.term, lg.logentries.len()));
}

#[test]
fn truncation_point_finds_first_line() {
    let lines = vec![entry(1, 1, "a", "u"), entry(2, 1, "b", "u"), entry(2, 2, "c", "u")];
    assert_eq!(1, truncation_point(&lines, 2));
    assert_eq!(0, truncation_point(&lines, 1));
    assert_eq!(3, truncation_point(&lines, 9));
}

#[test]
fn truncate_at_zero_keeps_cache() {
    let mut lg = Log::new("p".to_string(), Some(entry(5, 2, "x", "u")));
    lg.truncate(0);
    assert_eq!((0, 0), (lg.idx, lg.term));
}

#[test]
fn accepted_entries_are_queued_for_the_file() {
    let mut lg = Log::new("p".to_string(), None);
    let r = lg.append_entries(&aer(1, 0, 0, vec![entry(1, 1, "a", "u1"), entry(2, 1, "b", "u2")]));
    assert!(r.is_ok());
    let ws = lg.take_writes();
    assert_eq!(
        vec![LogWrite::Append(entry(1, 1, "a", "u1")), LogWrite::Append(entry(2, 1, "b", "u2"))],
        ws
    );
    assert!(lg.writes.is_empty());
    assert_eq!(2, lg.logentries.len());
}

#[test]
fn refused_entry_queues_nothing() {
    let mut lg = Log::new("p".to_string(), None);
    lg.append_entry(&entry(1, 3, "a", "u1")).unwrap();
    lg.take_writes();
    let r = lg.append_entry(&entry(2, 2, "b", "u2"));
    assert_eq!(Err(LogError::TermViolation { entry_term: 2, log_term: 3 }), r);
    assert!(lg.take_writes().is_empty());
}

#[test]
fn leader_behind_queues_a_truncation() {
    let mut lg = FileLog::new();
    lg.append_entries(&aer(1, 0, 0, vec![entry(1, 1, "a", "u1"), entry(2, 1, "b", "u2"), entry(3, 1, "c", "u3")]))
        .unwrap();
    let r = lg.log.append_entries(&aer(2, 1, 1, vec![entry(2, 2, "x", "ux")]));
    assert_eq!(Err(LogError::PrevLogIdxBehind { prev_log_idx: 1, log_idx: 1 }), r);
    assert_eq!(vec![LogWrite::TruncateAt(2)], lg.log.writes);
    lg.sync();
    assert_eq!(vec![entry(1, 1, "a", "u1")], lg.lines);
    assert_eq!(lg.log.logentries, lg.lines);
}

#[test]
fn term_mismatch_queues_a_truncation_of_the_last_entry() {
    let mut lg = FileLog::new();
    lg.append_entries(&aer(1, 0, 0, vec![entry(1, 1, "a", "u1"), entry(2, 1, "b", "u2")])).unwrap();
    let r = lg.append_entries(&aer(3, 2, 2, vec![]));
    assert_eq!(Err(LogError::TermMismatch { prev_log_term: 2, log_term: 1 }), r);
    assert_eq!(vec![entry(1, 1, "a", "u1")], lg.lines);
    assert_eq!(lg.log.logentries, lg.lines);
}

#[test]
fn replayed_request_leaves_the_log_alone() {
    let mut lg = FileLog::new();
    let req = aer(1, 0, 0, vec![entry(1, 1, "a", "u1"), entry(2, 1, "b", "u2")]);
    assert!(lg.append_entries(&req).is_ok());
    assert_eq!(Err(LogError::AlreadyLogged { prev_log_idx: 0, log_idx: 2 }), lg.append_entries(&req));
    assert_eq!(2, lg.lines.len());
    assert_eq!((2, 1, 2), (lg.log.idx, lg.log.term, lg.log.logentries.len()));
    // a request behind the log with an entry it does not hold still truncates
    let r = lg.append_entries(&aer(2, 0, 0, vec![entry(1, 2, "x", "ux")]));
    assert_eq!(Err(LogError::PrevLogIdxBehind { prev_log_idx: 0, log_idx: 0 }), r);
    assert!(lg.lines.is_empty());
}
