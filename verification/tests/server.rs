use schooner::schooner::append_entries::{AppendEntriesRequest, AppendEntriesResponse};
use schooner::schooner::consistent_log::{truncation_point, LogEntry, LogWrite};
use schooner::serror::SError;
use schooner::server::{is_stop_msg, parse_content_length, FollowerAction, FollowerEvent, Server, State};

fn server() -> Server {
    Server::new(1, "datalog/S1TEST".to_string(), "127.0.0.1".to_string(), 23158, None)
}

fn running_server() -> Server {
    let mut s = server();
    assert!(s.run().is_ok());
    s
}

fn entries(idx: &[u64], term: &[u64]) -> Vec<LogEntry> {
    idx.iter()
        .zip(term.iter())
        .map(|(i, t)| LogEntry {
            idx: *i,
            term: *t,
            data: format!("inventory.widget.count = {}", 100 - *i),
            uuid: format!("uuid-{}", i),
        })
        .collect()
}

fn aereq(idx: &[u64], term: &[u64], prev_log_idx: u64, prev_log_term: u64) -> AppendEntriesRequest {
    AppendEntriesRequest {
        term: *term.last().unwrap(),
        prev_log_idx,
        prev_log_term,
        commit_idx: 0,
        leader_id: 100,
        entries: entries(idx, term),
    }
}

#[test]
fn new_server_is_stopped() {
    let s = server();
    assert_eq!(State::Stopped, s.state);
    assert_eq!("127.0.0.1:23158", s.conx_str);
    assert_eq!(0, s.current_term);
    assert_eq!("datalog/S1TEST", s.log.path);
}

#[test]
fn run_twice_is_refused() {
    let mut s = server();
    assert!(s.run().is_ok());
    assert_eq!(State::Follower, s.state);
    match s.run() {
        Err(SError::InvalidState(m)) => assert_eq!("schooner.Server: Server already running", m),
        other => panic!("unexpected: {:?}", other),
    }
}

#[test]
fn run_takes_term_of_log() {
    let last = LogEntry { idx: 9, term: 4, data: String::new(), uuid: String::new() };
    let mut s = Server::new(2, "p".to_string(), "10.0.0.2".to_string(), 80, Some(last));
    assert!(s.run().is_ok());
    assert_eq!(4, s.current_term);
}

/// Makes the log's queued writes on `lines`, the lines of its file.
fn sync_file(s: &mut Server, lines: &mut Vec<LogEntry>) {
    for w in s.log.take_writes() {
        match w {
            LogWrite::Append(e) => lines.push(e),
            LogWrite::TruncateAt(k) => {
                let n = truncation_point(lines, k);
                lines.truncate(n);
            }
        }
    }
}

/// The single request of the first tests: entry idx 1 of term 1.
fn aereq1() -> (AppendEntriesRequest, LogEntry) {
    let logentry1 = LogEntry {
        idx: 1,
        term: 1,
        data: "inventory.widget.count = 100".to_string(),
        uuid: "uuid-999".to_string(),
    };
    let aereq = AppendEntriesRequest {
        term: 0,
        prev_log_idx: 0,
        prev_log_term: 0,
        commit_idx: 0,
        leader_id: 100,
        entries: vec![logentry1.clone()],
    };
    (aereq, logentry1)
}

#[test]
#[allow(non_snake_case)]
fn test_follower_with_single_AppendEntryRequest() {
    let mut s = running_server();
    let mut file: Vec<LogEntry> = Vec::new();
    let (req, logentry1) = aereq1();
    let aeresp = s.follower_append_entries(&req);
    sync_file(&mut s, &mut file);

    assert_eq!(1, aeresp.term);
    assert_eq!(1, aeresp.idx);
    assert_eq!(true, aeresp.success);

    // the entry was written to the file, and it is the only one
    assert_eq!(vec![logentry1], file);
}

#[test]
#[allow(non_snake_case)]
fn test_follower_with_same_AppendEntryRequest_twice_should_return_false_2nd_time() {
    let mut s = running_server();
    let mut file: Vec<LogEntry> = Vec::new();

    // send logentry1 (term1)
    let (req, logentry1) = aereq1();
    let result1 = s.follower_append_entries(&req);
    sync_file(&mut s, &mut file);

    // send logentry1 again (term1)
    let (req2, _) = aereq1();
    let result2 = s.follower_append_entries(&req2);
    sync_file(&mut s, &mut file);

    // result 1 should be success = true
    let aeresp = &result1;
    assert_eq!(1, aeresp.term);
    assert_eq!(1, aeresp.idx);
    assert_eq!(true, aeresp.success);

    // result 2 should be success = false
    assert!(!result2.success);
    let aeresp2 = &result1;
    assert_eq!(1, aeresp2.term);
    assert_eq!(1, aeresp2.idx);
    assert_eq!(true, aeresp2.success);

    // the entry was written to the file, and it is the only one
    assert_eq!(vec![logentry1], file);
}

#[test]
#[allow(non_snake_case)]
fn test_follower_with_multiple_valid_AppendEntryRequests() {
    let mut s = running_server();
    let req = aereq(&[1, 2, 3, 4], &[1, 1, 1, 1], 0, 0);
    let logentries = req.entries.clone();
    let aeresp = s.follower_append_entries(&req);

    assert_eq!(4, logentries.len());
    assert_eq!(1, aeresp.term);
    assert_eq!(4, aeresp.idx);
    assert_eq!(true, aeresp.success);
}

#[test]
#[allow(non_snake_case)]
fn test_follower_with_AppendEntryRequests_with_invalid_term() {
    let mut s = running_server();

    // AER 1, valid, initial
    let req1 = aereq(&[1], &[1], 0, 0);
    let logentries1 = req1.entries.clone();
    let result1 = s.follower_append_entries(&req1);

    // AER 2: valid, term increment
    let req2 = aereq(&[2, 3], &[2, 2], 1, 1);
    let logentries2 = req2.entries.clone();
    let result2 = s.follower_append_entries(&req2);

    // AER 3: invalid, term in past
    let req3 = aereq(&[4], &[1], 3, 2);
    let logentries3 = req3.entries.clone();
    let result3 = s.follower_append_entries(&req3);

    assert_eq!(1, logentries1.len());
    assert_eq!(2, logentries2.len());
    assert_eq!(1, logentries3.len());

    assert_eq!(true, result1.success);
    assert_eq!(1, result1.term);
    assert_eq!(1, result1.idx);

    assert_eq!(true, result2.success);
    assert_eq!(2, result2.term);
    assert_eq!(3, result2.idx);

    assert_eq!(false, result3.success);
    assert_eq!(2, result3.term);
    assert_eq!(3, result3.idx);
}

#[test]
#[allow(non_snake_case)]
fn test_follower_with_AppendEntryRequests_with_invalid_prevLogTerm() {
    let mut s = running_server();
    let mut file: Vec<LogEntry> = Vec::new();

    // AER 1, valid, initial
    let req1 = aereq(&[1, 2], &[1, 1], 0, 0);
    let logentries1 = req1.entries.clone();
    let result1 = s.follower_append_entries(&req1);
    sync_file(&mut s, &mut file);
    let num_entries_logged1 = file.len();

    // AER 2: invalid, the previous entry's term should be 1, not 2
    let req2 = aereq(&[2, 3], &[2, 2], 2, 2);
    let logentries2 = req2.entries.clone();
    let result2 = s.follower_append_entries(&req2);
    sync_file(&mut s, &mut file);
    let num_entries_logged2 = file.len();

    // AER 3: same entries, now valid after the truncation
    let req3 = aereq(&[2, 3], &[2, 2], 1, 1);
    let logentries3 = req3.entries.clone();
    let result3 = s.follower_append_entries(&req3);
    sync_file(&mut s, &mut file);
    let num_entries_logged3 = file.len();

    assert_eq!(2, logentries1.len());
    assert_eq!(2, logentries2.len());
    assert_eq!(2, logentries3.len());

    assert_eq!(2, num_entries_logged1);
    assert_eq!(1, num_entries_logged2); // one entry truncated bcs t1_idx2 != t2_idx2
    assert_eq!(3, num_entries_logged3); // two added

    assert_eq!(true, result1.success);
    assert_eq!(1, result1.term);
    assert_eq!(2, result1.idx);

    assert_eq!(false, result2.success);
    assert_eq!(1, result2.term);
    assert_eq!(1, result2.idx);

    assert_eq!(true, result3.success);
    assert_eq!(2, result3.term);
    assert_eq!(3, result3.idx);
    assert_eq!(s.log.logentries, file);
}

#[test]
fn roles_cycle() {
    let mut s = running_server();
    s.follower_timeout();
    assert_eq!(State::Candidate, s.state);
    s.candidate_loop();
    assert_eq!(State::Leader, s.state);
    s.leader_loop();
    assert_eq!(State::Snapshotting, s.state);
    s.snapshotting_loop();
    assert_eq!(State::Follower, s.state);
    s.follower_stop();
    assert_eq!(State::Stopped, s.state);
}

#[test]
fn stop_message() {
    assert!(is_stop_msg("STOP"));
    assert!(!is_stop_msg("STOP "));
    assert!(!is_stop_msg("stop"));
}

#[test]
fn length_line() {
    assert_eq!(Some(12), parse_content_length("Length: 12"));
    assert_eq!(Some(7), parse_content_length("Length:\t 7 \n"));
    assert_eq!(Some(0), parse_content_length("Length:0"));
    assert_eq!(None, parse_content_length("Length 12"));
    assert_eq!(None, parse_content_length("Length: 1:2"));
    assert_eq!(None, parse_content_length("Length: -1"));
    assert_eq!(None, parse_content_length("Content-Length: 12"));
}

#[test]
fn follower_step_times_out_to_candidate() {
    let mut s = running_server();
    match s.follower_step(FollowerEvent::Timeout) {
        FollowerAction::StandForElection => {}
        _ => panic!("expected to stand for election"),
    }
    assert_eq!(State::Candidate, s.state);
}

#[test]
fn follower_step_stops_on_stop_message() {
    let mut s = running_server();
    match s.follower_step(FollowerEvent::Message("STOP".to_string(), None)) {
        FollowerAction::Stop => {}
        _ => panic!("expected to stop"),
    }
    assert_eq!(State::Stopped, s.state);
}

#[test]
fn follower_step_answers_a_request() {
    let mut s = running_server();
    let req = aereq(&[1, 2], &[1, 1], 0, 0);
    match s.follower_step(FollowerEvent::Message("{..}".to_string(), Some(req))) {
        FollowerAction::Reply(resp) => assert_eq!(
            AppendEntriesResponse { success: true, term: 1, idx: 2, commit_idx: 2, peer_id: 1 },
            resp
        ),
        _ => panic!("expected an answer"),
    }
    assert_eq!(State::Follower, s.state);
    assert_eq!(2, s.log.writes.len());
    let behind = aereq(&[5], &[1], 4, 1);
    match s.follower_step(FollowerEvent::Message("{..}".to_string(), Some(behind))) {
        FollowerAction::Reply(resp) => assert_eq!(
            AppendEntriesResponse { success: false, term: 1, idx: 2, commit_idx: 2, peer_id: 1 },
            resp
        ),
        _ => panic!("expected an answer"),
    }
}
