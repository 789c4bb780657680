//! The standalone Raft server: the follower answers AppendEntries requests
//! from its log, and the server cycles through its roles.  The network
//! listener, the event channel and the timers are driven by the caller,
//! which hands each event to the methods here.
use vstd::prelude::*;
use std::sync::mpsc::Sender;

use crate::schooner::append_entries::{AppendEntriesRequest, AppendEntriesResponse};
use crate::schooner::consistent_log::{after_request, already_logged, request_writes, Log, LogEntry};
use crate::serror::SError;
use crate::text::{
    chars_of, chars_starts_with, decimal, has_prefix, parse_usize_chars, parse_usize_spec, push_char,
    split_chars, split_seq, str_eq, string_from_chars, trim, trim_chars, write_decimal,
};

verus! {

/// The message that stops the server.
pub const STOP_MSG: &'static str = "STOP";

/// The role a server is in.
#[derive(Clone, Copy, Debug, PartialEq, Eq, Structural)]
pub enum State {
    Stopped,
    Follower,
    Candidate,
    Leader,
    Snapshotting,
}

/// A Raft server (its event channel is held by the caller).
pub struct Server {
    pub ip: String,
    pub tcpport: usize,
    pub id: usize,
    /// path to the log file
    pub path: String,
    pub state: State,
    pub current_term: u64,
    /// "ip:port" of the server
    pub conx_str: String,
    pub log: Log,
}

/// A message from the network, with the channel for its answer.
pub struct Event {
    pub msg: String,
    pub ch: Sender<String>,
}

/// What wakes the follower loop.
pub enum FollowerEvent {
    /// No message came from a leader in time.
    Timeout,
    /// A message from the network, with the AppendEntries request it
    /// decodes to (`None` when it does not decode).
    Message(String, Option<AppendEntriesRequest>),
}

/// What the follower loop does after an event.
pub enum FollowerAction {
    /// Leave the loop as a candidate.
    StandForElection,
    /// Leave the loop and stop the server.
    Stop,
    /// Send this answer back and wait for the next event.
    Reply(AppendEntriesResponse),
}

/// The message with which `run` refuses a server that is already running.
pub open spec fn already_running_msg() -> Seq<char> {
    "schooner.Server: Server already running"@
}

/// What the follower answers to a request, given its log after the request
/// and whether the log took it.
pub open spec fn follower_response(id: usize, log_idx: u64, log_term: u64, success: bool) -> AppendEntriesResponse {
    AppendEntriesResponse { success, term: log_term, idx: log_idx, commit_idx: log_idx, peer_id: id }
}

/// The value of a `Length: NN` line: the line starts with `Length:`, holds
/// no other `:`, and what follows the `:` is, trimmed, a number.
pub open spec fn length_line_value(s: Seq<char>) -> Option<usize> {
    if !has_prefix(s, "Length:"@) {
        None
    } else if split_seq(s, ':').len() != 2 {
        None
    } else {
        parse_usize_spec(trim(split_seq(s, ':')[1]))
    }
}

impl Server {
    /// A stopped server with id `id`, listening at `ipaddr:tcpport`, whose
    /// log is the file at `logpath` with last entry `last_entry`.
    pub fn new(id: usize, logpath: String, ipaddr: String, tcpport: usize, last_entry: Option<LogEntry>) -> (s:
        Server)
        ensures
            s.ip == ipaddr,
            s.tcpport == tcpport,
            s.id == id,
            s.path == logpath,
            s.state == State::Stopped,
            s.current_term == 0,
            s.conx_str@ == ipaddr@ + seq![':'] + decimal(tcpport as nat),
            s.log.path == logpath,
            s.log@.entries.len() == 0,
            s.log.writes@.len() == 0,
            match last_entry {
                Some(e) => s.log.idx == e.idx && s.log.term == e.term,
                None => s.log.idx == 0 && s.log.term == 0,
            },
    {
        let lg = Log::new(logpath.clone(), last_entry);
        let mut conx_str = string_from_chars(&chars_of(ipaddr.as_str()));
        push_char(&mut conx_str, ':');
        write_decimal(&mut conx_str, tcpport);
        Server {
            ip: ipaddr,
            tcpport,
            id,
            path: logpath,
            state: State::Stopped,
            current_term: 0,
            conx_str,
            log: lg,
        }
    }

    /// Starts a stopped server as a follower whose current term is that of
    /// its log; a server that is not stopped is refused and left as it was.
    /// (The caller then runs the network listener and the serve loop.)
    pub fn run(&mut self) -> (r: Result<(), SError>)
        ensures
            old(self).state != State::Stopped ==> (r matches Err(SError::InvalidState(m))
                && m@ == already_running_msg() && *final(self) == *old(self)),
            old(self).state == State::Stopped ==> (r is Ok && *final(self) == (Server {
                state: State::Follower,
                current_term: old(self).log.term,
                ..*old(self)
            })),
    {
        if self.state != State::Stopped {
            return Err(SError::InvalidState(String::from_str("schooner.Server: Server already running")));
        }
        self.current_term = self.log.term;
        self.state = State::Follower;
        Ok(())
    }

    /// The follower heard nothing from a leader in time: it stands for
    /// election.
    pub fn follower_timeout(&mut self)
        ensures
            *final(self) == (Server { state: State::Candidate, ..*old(self) }),
    {
        self.state = State::Candidate;
    }

    /// The follower received the stop message.
    pub fn follower_stop(&mut self)
        ensures
            *final(self) == (Server { state: State::Stopped, ..*old(self) }),
    {
        self.state = State::Stopped;
    }

    /// The follower's answer to an AppendEntries request: it applies the
    /// request to its log and reports whether the log took it, with the idx
    /// and term of the log's last entry afterwards.
    pub fn follower_append_entries(&mut self, aereq: &AppendEntriesRequest) -> (resp: AppendEntriesResponse)
        ensures
            final(self).log@ == after_request(
                old(self).log@,
                aereq.prev_log_idx,
                aereq.prev_log_term,
                aereq.entries@,
            ).0,
            final(self).log.writes@ == old(self).log.writes@ + request_writes(
                old(self).log@,
                aereq.prev_log_idx,
                aereq.prev_log_term,
                aereq.entries@,
            ),
            resp.success == after_request(
                old(self).log@,
                aereq.prev_log_idx,
                aereq.prev_log_term,
                aereq.entries@,
            ).1 is Ok,
            resp == follower_response(old(self).id, final(self).log.idx, final(self).log.term, resp.success),
            aereq.prev_log_idx < old(self).log.idx && already_logged(old(self).log@.entries, aereq.entries@)
                ==> !resp.success && final(self).log@ == old(self).log@ && final(self).log.writes@
                == old(self).log.writes@,
            *final(self) == (Server { log: final(self).log, ..*old(self) }),
            final(self).log.path == old(self).log.path,
    {
        let r = self.log.apply_request(aereq.prev_log_idx, aereq.prev_log_term, &aereq.entries);
        let success = r.is_ok();
        AppendEntriesResponse {
            success,
            term: self.log.term,
            idx: self.log.idx,
            commit_idx: self.log.idx,
            peer_id: self.id,
        }
    }

    /// One turn of the follower loop.  On a timeout the follower stands for
    /// election; on the stop message it stops; any other message must be an
    /// AppendEntries request, which the follower answers from its log.
    pub fn follower_step(&mut self, ev: FollowerEvent) -> (a: FollowerAction)
        requires
            ev matches FollowerEvent::Message(m, req) ==> (m@ != STOP_MSG@ ==> req is Some),
        ensures
            final(self).log.path == old(self).log.path,
            match ev {
                FollowerEvent::Timeout => a is StandForElection && *final(self) == (Server {
                    state: State::Candidate,
                    ..*old(self)
                }),
                FollowerEvent::Message(m, req) => if m@ == STOP_MSG@ {
                    a is Stop && *final(self) == (Server { state: State::Stopped, ..*old(self) })
                } else {
                    let aereq = req->0;
                    let (lg, res) = after_request(
                        old(self).log@,
                        aereq.prev_log_idx,
                        aereq.prev_log_term,
                        aereq.entries@,
                    );
                    &&& *final(self) == (Server { log: final(self).log, ..*old(self) })
                    &&& final(self).log@ == lg
                    &&& final(self).log.writes@ == old(self).log.writes@ + request_writes(
                        old(self).log@,
                        aereq.prev_log_idx,
                        aereq.prev_log_term,
                        aereq.entries@,
                    )
                    &&& a == FollowerAction::Reply(
                        follower_response(old(self).id, lg.idx, lg.term, res is Ok),
                    )
                },
            },
    {
        match ev {
            FollowerEvent::Timeout => {
                self.follower_timeout();
                FollowerAction::StandForElection
            },
            FollowerEvent::Message(msg, req) => {
                if is_stop_msg(msg.as_str()) {
                    self.follower_stop();
                    FollowerAction::Stop
                } else {
                    match req {
                        Some(aereq) => FollowerAction::Reply(self.follower_append_entries(&aereq)),
                        None => FollowerAction::Stop,
                    }
                }
            },
        }
    }

    /// A candidate becomes the leader.
    pub fn candidate_loop(&mut self)
        ensures
            *final(self) == (Server { state: State::Leader, ..*old(self) }),
    {
        self.state = State::Leader;
    }

    /// A leader goes on to take a snapshot.
    pub fn leader_loop(&mut self)
        ensures
            *final(self) == (Server { state: State::Snapshotting, ..*old(self) }),
    {
        self.state = State::Snapshotting;
    }

    /// After a snapshot the server follows again.
    pub fn snapshotting_loop(&mut self)
        ensures
            *final(self) == (Server { state: State::Follower, ..*old(self) }),
    {
        self.state = State::Follower;
    }
}

/// Whether `s` is the stop message.
pub fn is_stop_msg(s: &str) -> (r: bool)
    ensures
        r == (s@ == STOP_MSG@),
{
    str_eq(s, STOP_MSG)
}

/// The length in a content-length line of the form `Length: NN`, where NN
/// is a number; `None` when the line is not of that form.
pub fn parse_content_length(len_line: &str) -> (r: Option<usize>)
    ensures
        r == length_line_value(len_line@),
{
    let line = chars_of(len_line);
    let prefix = chars_of("Length:");
    if !chars_starts_with(&line, &prefix) {
        return None;
    }
    let parts = split_chars(&line, ':');
    if parts.len() != 2 {
        return None;
    }
    assert(parts@[1]@ == split_seq(line@, ':')[1]);
    let lenstr = trim_chars(&parts[1]);
    parse_usize_chars(&lenstr)
}

} // verus!
