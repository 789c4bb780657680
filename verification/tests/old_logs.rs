use schooner::log::{Log as FirstLog, LogError as FirstError};
use schooner::log_entry::LogEntry as FirstEntry;
use schooner::schooner::append_entries::AppendEntriesRequest;
use schooner::schooner::consistent_log::LogEntry;
use schooner::schooner::log::{truncation_point, Log, LogError};
use schooner::schooner::log_entry::LogEntry as SecondEntry;

fn first(index: u64, term: u64) -> FirstEntry {
    FirstEntry { index, term, command_name: "wc".to_string(), command: None }
}

#[test]
fn first_log_checks_entries() {
    let mut lg = FirstLog::new("p".to_string(), Some(first(5, 2)));
    assert_eq!((5, 5, 5, 2, 2), (lg.commit_idx, lg.start_idx, lg.curr_idx, lg.start_term, lg.curr_term));
    assert_eq!(Err(FirstError::TermViolation { entry_term: 1, curr_term: 2 }), lg.append_entry(first(9, 1)));
    assert_eq!(
        Err(FirstError::IndexViolation { entry_term: 2, entry_index: 5, curr_term: 2, curr_idx: 5 }),
        lg.append_entry(first(5, 2))
    );
    assert!(lg.append_entry(first(6, 2)).is_ok());
    assert_eq!((6, 2), (lg.curr_idx, lg.curr_term));
    // the same entry is not taken twice
    assert_eq!(
        Err(FirstError::IndexViolation { entry_term: 2, entry_index: 6, curr_term: 2, curr_idx: 6 }),
        lg.append_entry(first(6, 2))
    );
    assert!(lg.append_entry(first(1, 3)).is_ok());
    assert_eq!((1, 3), (lg.curr_idx, lg.curr_term));
    assert_eq!((5, 5, 2), (lg.commit_idx, lg.start_idx, lg.start_term));
}

fn entry(idx: u64, term: u64) -> LogEntry {
    LogEntry { idx, term, data: "d".to_string(), uuid: "u".to_string() }
}

fn request(prev_log_idx: u64, prev_log_term: u64, entries: Vec<LogEntry>) -> AppendEntriesRequest {
    AppendEntriesRequest { term: 1, prev_log_idx, prev_log_term, commit_idx: 0, leader_id: 32, entries }
}

#[test]
fn log_test_truncate() {
    let logent = |idx: u64, term: u64, data: &str| LogEntry { idx, term, data: data.to_string(), uuid: String::new() };
    let mut log = Log::new("datalog/log.test".to_string(), None);
    let mut aer = request(0, 0, vec![logent(1, 1, "a"), logent(2, 1, "b"), logent(3, 1, "c"), logent(4, 1, "d")]);
    let result = log.append_entries(&aer);
    assert!(result.is_ok());

    aer = request(0, 0, vec![logent(5, 2, "e"), logent(6, 2, "f")]);
    let result = log.append_entries(&aer);
    assert!(result.is_ok());
}

#[test]
fn second_log_needs_the_entry_it_was_opened_at() {
    let mut lg = Log::new("p".to_string(), Some(SecondEntry { idx: 2, term: 1, data: String::new(), uuid: String::new() }));
    assert_eq!(Err(LogError::PrevLogIdxMismatch { start_idx: 2 }), lg.append_entries(&request(0, 0, vec![entry(3, 1)])));
    assert_eq!(Err(LogError::TermMismatch { start_term: 1 }), lg.append_entries(&request(2, 2, vec![entry(3, 2)])));
    assert_eq!(
        Err(LogError::IndexViolation { entry_term: 1, entry_idx: 2, last_term: 1, last_idx: 2 }),
        lg.append_entries(&request(2, 1, vec![entry(2, 1)]))
    );
    assert!(lg.append_entries(&request(2, 1, vec![entry(3, 1), entry(4, 2)])).is_ok());
    assert_eq!(vec![3, 4], lg.entries.iter().map(|e| e.idx).collect::<Vec<u64>>());
    // entries are checked against the last one taken
    assert_eq!(
        Err(LogError::TermViolation { entry_term: 1, last_term: 2 }),
        lg.append_entries(&request(2, 1, vec![entry(5, 1)]))
    );
    assert_eq!(2, lg.entries.len());
}

#[test]
fn second_log_truncation_point() {
    let lines: Vec<SecondEntry> = (1..5).map(|i| SecondEntry { idx: i, term: 1, data: String::new(), uuid: String::new() }).collect();
    let at = SecondEntry { idx: 3, term: 1, data: String::new(), uuid: String::new() };
    assert_eq!(2, truncation_point(&lines, &at));
}
