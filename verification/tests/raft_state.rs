use std::sync::mpsc::channel;

use schooner::schooner::consistent_log::{Log, LogEntry};
use schooner::schooner::events::{AppendEntriesReq, AppendEntriesRes, RaftEvent, VoteReq};
use schooner::schooner::net::types::RaftRpc;
use schooner::schooner::server::{
    LoopControl, LoopEvent, Outgoing, RaftNextState, RaftPeerMsg, RaftServer, RaftServerState,
    RaftStateTransition,
};
use uuid::Uuid;

fn state(role: RaftNextState) -> RaftServerState {
    let (send, _recv) = channel();
    let mut log = Log::new("p".to_string(), None);
    log.append_entry(&LogEntry { idx: 1, term: 1, data: "a".to_string(), uuid: "u".to_string() }).unwrap();
    RaftServerState::new(role, send, Vec::new(), log, 7)
}

fn req(term: u64, commit_idx: u64, entries: Vec<LogEntry>) -> AppendEntriesReq {
    AppendEntriesReq { term, prev_log_idx: 1, prev_log_term: 1, commit_idx, leader_id: 3, uuid: Uuid::new_v4(), entries }
}

#[test]
fn raft_server_defaults() {
    let mut s = RaftServer::new();
    assert_eq!(150, s.election_timeout);
    assert_eq!(75, s.heartbeat_interval);
    assert!(!RaftServer::add_peer());
    let (send, _recv) = channel();
    assert!(s.spawn_peer_tasks(send).is_empty());
}

#[test]
fn leader_sets_up_with_a_heartbeat() {
    let mut st = state(RaftNextState::RaftLeader);
    assert_eq!(LoopControl::Proceed, st.loop_top());
    assert!(st.is_setup);
    assert_eq!(1, st.outbox.len());
    match &st.outbox[0] {
        Outgoing::ToAllPeers(RaftRpc::RpcARQ(aer)) => {
            assert_eq!((1, 1, 1, 1, 7), (aer.term, aer.prev_log_idx, aer.prev_log_term, aer.commit_idx, aer.leader_id));
            assert!(aer.entries.is_empty());
        }
        _ => panic!("expected a heartbeat"),
    }
    // setup happens once
    assert_eq!(LoopControl::Proceed, st.loop_top());
    assert_eq!(1, st.outbox.len());
    // the timer sends one more
    assert_eq!(LoopControl::Proceed, st.handle_event(LoopEvent::Timer));
    assert_eq!(2, st.outbox.len());
}

#[test]
fn follower_ignores_timer() {
    let mut st = state(RaftNextState::RaftFollower);
    st.loop_top();
    assert_eq!(LoopControl::Proceed, st.handle_event(LoopEvent::Timer));
    assert!(st.outbox.is_empty());
}

#[test]
fn leader_forwards_entries_its_log_takes() {
    let mut st = state(RaftNextState::RaftLeader);
    let e = LogEntry { idx: 2, term: 1, data: "b".to_string(), uuid: "u".to_string() };
    st.handle_append_entries_req(req(1, 0, vec![e.clone()]));
    assert_eq!(2, st.log.idx);
    assert_eq!(1, st.outbox.len());
    // the same request again is refused and not forwarded
    st.handle_append_entries_req(req(1, 0, vec![e]));
    assert_eq!(1, st.outbox.len());
}

#[test]
fn follower_answers_stale_leader() {
    let mut st = state(RaftNextState::RaftFollower);
    st.current_term = 5;
    st.handle_append_entries_req(req(4, 3, vec![]));
    assert_eq!(1, st.last_applied);
    match &st.outbox[0] {
        Outgoing::ReplyAppendEntries(res) => {
            assert!(!res.success);
            assert_eq!(5, res.term);
        }
        _ => panic!("expected a reply"),
    }
    st.handle_append_entries_req(req(6, 0, vec![]));
    assert_eq!(1, st.outbox.len());
    assert_eq!(1, st.last_applied);
}

#[test]
fn leader_teardown_falls_back_to_follower() {
    let mut st = state(RaftNextState::RaftLeader);
    st.loop_top();
    assert_eq!(LoopControl::Restart, st.may_transition(RaftStateTransition::NextState(RaftNextState::RaftCandidate)));
    assert_eq!(RaftNextState::RaftCandidate, st.current_state);
    assert!(!st.is_setup);
    st.loop_top();
    assert!(st.is_setup);
}

#[test]
fn stop_request_ends_the_loop() {
    let mut st = state(RaftNextState::RaftLeader);
    st.loop_top();
    assert_eq!(LoopControl::Exit, st.handle_event(LoopEvent::Peer(RaftPeerMsg::StopReq)));
    assert_eq!(RaftNextState::RaftFollower, st.current_state);
    let vote = VoteReq { term: 1, candidate_id: 2, last_log_index: 1, last_log_term: 1, uuid: Uuid::new_v4() };
    assert_eq!(LoopControl::Proceed, st.handle_event(LoopEvent::Peer(RaftPeerMsg::VRQ(vote))));
}

#[test]
fn stop_request_tears_a_leader_down() {
    let mut st = state(RaftNextState::RaftLeader);
    st.loop_top();
    assert_eq!(LoopControl::Exit, st.handle_event(LoopEvent::Peer(RaftPeerMsg::StopReq)));
    assert_eq!(RaftNextState::RaftFollower, st.current_state);
    assert!(!st.is_setup);
}

#[test]
fn follower_ignores_the_timer() {
    let mut st = state(RaftNextState::RaftFollower);
    st.loop_top();
    assert_eq!(LoopControl::Proceed, st.handle_event(LoopEvent::Timer));
    assert!(st.outbox.is_empty());
}

#[test]
fn events_send_no_answer_by_default() {
    let res = AppendEntriesRes { success: true, term: 1, uuid: Uuid::new_v4() };
    assert!(!res.respond(5u8));
}

#[test]
fn events_keep_the_role_set_up() {
    let mut st = state(RaftNextState::RaftLeader);
    st.loop_top();
    st.handle_event(LoopEvent::Timer);
    st.handle_event(LoopEvent::Peer(RaftPeerMsg::ARQ(req(1, 0, Vec::new()))));
    assert_eq!(RaftNextState::RaftLeader, st.current_state);
    assert!(st.is_setup);
}
