//! The Raft server: its configuration, and the state machine of the Raft
//! task, which moves between the follower, candidate and leader roles.
//!
//! The Raft task talks to three kinds of task over channels: one task per
//! peer for the RPCs, the application state machine, and the endpoints
//! that take requests from clients.  The caller runs the task's loop: it
//! waits for the heartbeat timer or for a message, hands it to
//! `handle_event`, and sends what the state machine put in its outbox.
use vstd::prelude::*;
use std::sync::mpsc::Sender;

use super::consistent_log::{after_request, request_writes, Log, LogState};
use super::events::{
    AppendEntriesReq, AppendEntriesRes, ApplicationReq, ApplicationRes, HandoffReq, HandoffRes,
    RaftMsg, VoteReq, VoteRes,
};
use super::net::types::RaftRpc;

verus! {

/// The configuration of a Raft server.
pub struct RaftServer {
    /// in milliseconds
    pub election_timeout: u64,
    /// in milliseconds
    pub heartbeat_interval: u64,
    pub peer_configs: Vec<()>,
}

impl RaftServer {
    /// A server with an election timeout of 150 ms and a heartbeat every
    /// half of it, with no peers.
    pub fn new() -> (s: RaftServer)
        ensures
            s.election_timeout == 150,
            s.heartbeat_interval == 75,
            s.peer_configs@.len() == 0,
    {
        let election_timeout: u64 = 150;
        RaftServer {
            election_timeout,
            heartbeat_interval: election_timeout / 2,
            peer_configs: Vec::new(),
        }
    }

    /// Adds a peer; peers cannot be added yet, so this reports failure.
    pub fn add_peer() -> (added: bool)
        ensures
            !added,
    {
        false
    }

    /// Starts one task per peer, each sending to `sender`; there are no
    /// peer tasks yet, so none is started.
    pub fn spawn_peer_tasks(&mut self, sender: Sender<RaftMsg>) -> (tasks: Vec<()>)
        ensures
            tasks@.len() == 0,
            *final(self) == *old(self),
    {
        Vec::new()
    }
}

/// The role of the Raft task.
#[derive(Clone, Copy, Debug, PartialEq, Eq, Structural)]
pub enum RaftNextState {
    RaftLeader,
    RaftCandidate,
    RaftFollower,
}

/// What a handler asks of the main loop.
#[derive(Clone, Copy, Debug, PartialEq, Eq, Structural)]
pub enum RaftStateTransition {
    /// Tear down the current role and take this one.
    NextState(RaftNextState),
    /// Stay in the current role.
    Continue,
    /// Tear down the current role and end the loop.
    Stop,
}

/// A message between the Raft task and the application side.
pub enum RaftAppMsg {
    APRQ(ApplicationReq),
    APRS(ApplicationRes),
}

/// A message from a peer task to the Raft task.
pub enum RaftPeerMsg {
    ARQ(AppendEntriesReq),
    ARS(AppendEntriesRes),
    VRQ(VoteReq),
    VRS(VoteRes),
    HRQ(HandoffReq),
    HRS(HandoffRes),
    StopReq,
}

/// What woke the main loop.
pub enum LoopEvent {
    /// The heartbeat timer fired.
    Timer,
    /// A message from a peer task.
    Peer(RaftPeerMsg),
    /// A message from an application endpoint.
    Endpoint(RaftAppMsg),
    /// A message from the application state machine.
    App(RaftAppMsg),
}

/// How the main loop goes on after a step.
#[derive(Clone, Copy, Debug, PartialEq, Eq, Structural)]
pub enum LoopControl {
    /// Go on with the current role.
    Proceed,
    /// The role changed: start the loop again, which sets the new role up.
    Restart,
    /// Leave the loop.
    Exit,
}

/// A message the Raft task sends out.
pub enum Outgoing {
    /// Send this RPC to every peer.
    ToAllPeers(RaftRpc),
    /// Answer the AppendEntries request being handled.
    ReplyAppendEntries(AppendEntriesRes),
}

/// The state of the Raft task.
pub struct RaftServerState {
    pub current_state: RaftNextState,
    /// whether the current role was set up
    pub is_setup: bool,
    /// to the application state machine
    pub to_app_sm: Sender<RaftAppMsg>,
    pub peers: Vec<()>,
    /// the replicated log
    pub log: Log,
    /// id of this server
    pub id: u64,
    /// the latest term this server has seen
    pub current_term: u64,
    /// idx of the last entry handed to the application state machine
    pub last_applied: u64,
    /// messages waiting to be sent, oldest first
    pub outbox: Vec<Outgoing>,
}

/// The heartbeat a leader with log `log` and id `id` sends: an
/// AppendEntries request with no entries whose previous entry is the last
/// entry of the log.
pub open spec fn is_heartbeat(aer: AppendEntriesReq, log: LogState, id: u64) -> bool {
    &&& aer.term == log.term
    &&& aer.prev_log_idx == log.idx
    &&& aer.prev_log_term == log.term
    &&& aer.commit_idx == log.idx
    &&& aer.leader_id == id
    &&& aer.entries@.len() == 0
}

/// The outbox holds one more message, a heartbeat to every peer.
pub open spec fn heartbeat_sent(before: Seq<Outgoing>, after: Seq<Outgoing>, log: LogState, id: u64) -> bool {
    &&& after.len() == before.len() + 1
    &&& after.drop_last() == before
    &&& after.last() matches Outgoing::ToAllPeers(RaftRpc::RpcARQ(aer)) && is_heartbeat(aer, log, id)
}

impl RaftServerState {
    /// The Raft task in role `current_state`, not yet set up, with log
    /// `log`, at term 0 with nothing applied.
    pub fn new(
        current_state: RaftNextState,
        to_app_sm: Sender<RaftAppMsg>,
        peers: Vec<()>,
        log: Log,
        id: u64,
    ) -> (s: RaftServerState)
        ensures
            s.current_state == current_state,
            !s.is_setup,
            s.to_app_sm == to_app_sm,
            s.peers == peers,
            s.log == log,
            s.id == id,
            s.current_term == 0,
            s.last_applied == 0,
            s.outbox@.len() == 0,
    {
        RaftServerState {
            current_state,
            is_setup: false,
            to_app_sm,
            peers,
            log,
            id,
            current_term: 0,
            last_applied: 0,
            outbox: Vec::new(),
        }
    }

    /// Takes the role `new_state`, which still has to be set up.
    pub fn new_state(&mut self, new_state: RaftNextState)
        ensures
            final(self).current_state == new_state,
            !final(self).is_setup,
            final(self).log == old(self).log,
            final(self).outbox == old(self).outbox,
            final(self).current_term == old(self).current_term,
            final(self).last_applied == old(self).last_applied,
            final(self).id == old(self).id,
    {
        self.current_state = new_state;
        self.is_setup = false;
    }

    /// Whether the task is the leader.
    pub fn is_leader(&self) -> (r: bool)
        ensures
            r == (self.current_state == RaftNextState::RaftLeader),
    {
        self.current_state == RaftNextState::RaftLeader
    }

    /// Sets the current role up, once: a leader announces itself with a
    /// heartbeat.  Every role then goes on.
    pub fn handle_setup(&mut self) -> (t: RaftStateTransition)
        ensures
            t == RaftStateTransition::Continue,
            final(self).is_setup,
            final(self).current_state == old(self).current_state,
            final(self).log == old(self).log,
            final(self).current_term == old(self).current_term,
            final(self).last_applied == old(self).last_applied,
            final(self).id == old(self).id,
            old(self).is_setup ==> *final(self) == *old(self),
            if !old(self).is_setup && old(self).current_state == RaftNextState::RaftLeader {
                heartbeat_sent(old(self).outbox@, final(self).outbox@, old(self).log@, old(self).id)
            } else {
                final(self).outbox == old(self).outbox
            },
    {
        if !self.is_setup {
            let res = match self.current_state {
                RaftNextState::RaftLeader => self.leader_setup(),
                RaftNextState::RaftCandidate => self.candidate_setup(),
                RaftNextState::RaftFollower => self.follower_setup(),
            };
            self.is_setup = true;
            res
        } else {
            RaftStateTransition::Continue
        }
    }

    /// Tears the current role down; a leader falls back to follower.
    pub fn handle_teardown(&mut self)
        ensures
            old(self).current_state == RaftNextState::RaftLeader ==> final(self).current_state
                == RaftNextState::RaftFollower && !final(self).is_setup,
            old(self).current_state != RaftNextState::RaftLeader ==> *final(self) == *old(self),
            final(self).log == old(self).log,
            final(self).outbox == old(self).outbox,
            final(self).current_term == old(self).current_term,
            final(self).last_applied == old(self).last_applied,
            final(self).id == old(self).id,
    {
        match self.current_state {
            RaftNextState::RaftLeader => self.leader_teardown(),
            RaftNextState::RaftCandidate => self.candidate_teardown(),
            RaftNextState::RaftFollower => self.follower_teardown(),
        }
    }

    /// The heartbeat timer fired: a leader sends a heartbeat to every
    /// peer; other roles do nothing.
    pub fn handle_heartbeat(&mut self) -> (t: RaftStateTransition)
        ensures
            t == RaftStateTransition::Continue,
            final(self).current_state == old(self).current_state,
            final(self).is_setup == old(self).is_setup,
            final(self).log == old(self).log,
            final(self).current_term == old(self).current_term,
            final(self).last_applied == old(self).last_applied,
            final(self).id == old(self).id,
            if old(self).current_state == RaftNextState::RaftLeader {
                heartbeat_sent(old(self).outbox@, final(self).outbox@, old(self).log@, old(self).id)
            } else {
                final(self).outbox == old(self).outbox
            },
    {
        if self.is_leader() {
            self.leader_heartbeat()
        } else {
            RaftStateTransition::Continue
        }
    }

    /// An AppendEntries request from a peer, handled by the current role.
    /// A leader logs the request's entries and, when its log takes them,
    /// passes the request on to every peer.  A follower applies one more
    /// committed entry when the leader has committed beyond what it has
    /// applied, and refuses a request from an earlier term.
    pub fn handle_append_entries_req(&mut self, req: AppendEntriesReq) -> (t: RaftStateTransition)
        ensures
            t == RaftStateTransition::Continue,
            final(self).current_state == old(self).current_state,
            final(self).is_setup == old(self).is_setup,
            final(self).id == old(self).id,
            final(self).current_term == old(self).current_term,
            old(self).current_state == RaftNextState::RaftLeader ==> leader_handled(*old(self), *final(self), req),
            old(self).current_state == RaftNextState::RaftFollower ==> follower_handled(*old(self), *final(self), req),
            old(self).current_state == RaftNextState::RaftCandidate ==> *final(self) == *old(self),
    {
        match self.current_state {
            RaftNextState::RaftLeader => self.leader_append_entries_req(req),
            RaftNextState::RaftCandidate => self.candidate_append_entries_req(req),
            RaftNextState::RaftFollower => self.follower_append_entries_req(req),
        }
    }

    /// An AppendEntries response from a peer; no role acts on it yet.
    pub fn handle_append_entries_res(&mut self, res: AppendEntriesRes) -> (t: RaftStateTransition)
        ensures
            t == RaftStateTransition::Continue,
            *final(self) == *old(self),
    {
        match self.current_state {
            RaftNextState::RaftLeader => self.leader_append_entries_res(res),
            RaftNextState::RaftCandidate => self.candidate_append_entries_res(res),
            RaftNextState::RaftFollower => self.follower_append_entries_res(res),
        }
    }

    /// A vote request from a peer; no role acts on it yet.
    pub fn handle_vote_req(&mut self, req: VoteReq) -> (t: RaftStateTransition)
        ensures
            t == RaftStateTransition::Continue,
            *final(self) == *old(self),
    {
        match self.current_state {
            RaftNextState::RaftLeader => self.leader_vote_req(req),
            RaftNextState::RaftCandidate => self.candidate_vote_req(req),
            RaftNextState::RaftFollower => self.follower_vote_req(req),
        }
    }

    /// A vote response from a peer; no role acts on it yet.
    pub fn handle_vote_res(&mut self, res: VoteRes) -> (t: RaftStateTransition)
        ensures
            t == RaftStateTransition::Continue,
            *final(self) == *old(self),
    {
        match self.current_state {
            RaftNextState::RaftLeader => self.leader_vote_res(res),
            RaftNextState::RaftCandidate => self.candidate_vote_res(res),
            RaftNextState::RaftFollower => self.follower_vote_res(res),
        }
    }

    /// An application request; not acted on yet.
    pub fn handle_application_req(&mut self, _req: ApplicationReq) -> (t: RaftStateTransition)
        ensures
            t == RaftStateTransition::Continue,
            *final(self) == *old(self),
    {
        RaftStateTransition::Continue
    }

    /// An application response; not acted on yet.
    pub fn handle_application_res(&mut self, _res: ApplicationRes) -> (t: RaftStateTransition)
        ensures
            t == RaftStateTransition::Continue,
            *final(self) == *old(self),
    {
        RaftStateTransition::Continue
    }

    /// A request handed off by a follower; not acted on yet.
    pub fn handle_handoff_req(&mut self, _req: HandoffReq) -> (t: RaftStateTransition)
        ensures
            t == RaftStateTransition::Continue,
            *final(self) == *old(self),
    {
        RaftStateTransition::Continue
    }

    /// The answer to a handed-off request; not acted on yet.
    pub fn handle_handoff_res(&mut self, _res: HandoffRes) -> (t: RaftStateTransition)
        ensures
            t == RaftStateTransition::Continue,
            *final(self) == *old(self),
    {
        RaftStateTransition::Continue
    }

    /// Carries out what a handler asked: on a new role the current role is
    /// torn down and the new one taken (to be set up when the loop starts
    /// again); on stop the current role is torn down and the loop ends.
    pub fn may_transition(&mut self, t: RaftStateTransition) -> (c: LoopControl)
        ensures
            match t {
                RaftStateTransition::NextState(s) => c == LoopControl::Restart
                    && final(self).current_state == s && !final(self).is_setup,
                RaftStateTransition::Stop => c == LoopControl::Exit && torn_down(*old(self), *final(self)),
                RaftStateTransition::Continue => c == LoopControl::Proceed && *final(self) == *old(self),
            },
            final(self).log == old(self).log,
            final(self).outbox == old(self).outbox,
            final(self).current_term == old(self).current_term,
            final(self).last_applied == old(self).last_applied,
            final(self).id == old(self).id,
    {
        match t {
            RaftStateTransition::NextState(new_state) => {
                self.handle_teardown();
                self.new_state(new_state);
                LoopControl::Restart
            },
            RaftStateTransition::Stop => {
                self.handle_teardown();
                LoopControl::Exit
            },
            RaftStateTransition::Continue => LoopControl::Proceed,
        }
    }

    /// The start of each turn of the main loop: the current role is set
    /// up if it was not.
    pub fn loop_top(&mut self) -> (c: LoopControl)
        ensures
            c == LoopControl::Proceed,
            top_step(*old(self), *final(self)),
            final(self).log == old(self).log,
    {
        let t = self.handle_setup();
        self.may_transition(t)
    }

    /// One event of the main loop, handed to the handler for it.  A stop
    /// request from a peer tears the current role down and ends the loop.
    pub fn handle_event(&mut self, ev: LoopEvent) -> (c: LoopControl)
        ensures
            (ev matches LoopEvent::Peer(RaftPeerMsg::StopReq)) ==> c == LoopControl::Exit,
            !(ev matches LoopEvent::Peer(RaftPeerMsg::StopReq)) ==> c == LoopControl::Proceed,
            event_handled(*old(self), *final(self), ev),
    {
        match ev {
            LoopEvent::Timer => {
                let t = self.handle_heartbeat();
                self.may_transition(t)
            },
            LoopEvent::Peer(msg) => {
                let t = match msg {
                    RaftPeerMsg::ARQ(ae_req) => self.handle_append_entries_req(ae_req),
                    RaftPeerMsg::ARS(ae_res) => self.handle_append_entries_res(ae_res),
                    RaftPeerMsg::VRQ(vote_req) => self.handle_vote_req(vote_req),
                    RaftPeerMsg::VRS(vote_res) => self.handle_vote_res(vote_res),
                    RaftPeerMsg::HRQ(handoff_req) => self.handle_handoff_req(handoff_req),
                    RaftPeerMsg::HRS(handoff_res) => self.handle_handoff_res(handoff_res),
                    RaftPeerMsg::StopReq => RaftStateTransition::Stop,
                };
                self.may_transition(t)
            },
            LoopEvent::Endpoint(msg) | LoopEvent::App(msg) => {
                let t = match msg {
                    RaftAppMsg::APRQ(app_req) => self.handle_application_req(app_req),
                    RaftAppMsg::APRS(app_res) => self.handle_application_res(app_res),
                };
                self.may_transition(t)
            },
        }
    }
}

/// A follower never applies an entry the leader has not committed: what it
/// has applied never goes down, goes up by at most one per request, and
/// goes up only to an idx within the request's commit idx.
pub proof fn lemma_follower_applies_only_committed(
    before: RaftServerState,
    after: RaftServerState,
    req: AppendEntriesReq,
)
    requires
        follower_handled(before, after, req),
    ensures
        before.last_applied <= after.last_applied <= before.last_applied + 1,
        after.last_applied > before.last_applied ==> after.last_applied <= req.commit_idx,
        req.commit_idx > before.last_applied ==> after.last_applied == before.last_applied + 1,
{
}

/// The Raft task tore its current role down: a leader falls back to an
/// unset follower, other roles stay as they were.
pub open spec fn torn_down(before: RaftServerState, after: RaftServerState) -> bool {
    if before.current_state == RaftNextState::RaftLeader {
        &&& after.current_state == RaftNextState::RaftFollower
        &&& !after.is_setup
        &&& after.log == before.log
        &&& after.outbox == before.outbox
        &&& after.current_term == before.current_term
        &&& after.last_applied == before.last_applied
        &&& after.id == before.id
    } else {
        after == before
    }
}

/// The Raft task handled the event `ev` of its main loop: on the timer a
/// leader sends a heartbeat; an AppendEntries request is handled by the
/// current role; a stop request tears the role down; no other event
/// changes anything yet.
pub open spec fn event_handled(before: RaftServerState, after: RaftServerState, ev: LoopEvent) -> bool {
    match ev {
        LoopEvent::Timer => {
            &&& after.current_state == before.current_state
            &&& after.is_setup == before.is_setup
            &&& after.log == before.log
            &&& after.current_term == before.current_term
            &&& after.last_applied == before.last_applied
            &&& after.id == before.id
            &&& if before.current_state == RaftNextState::RaftLeader {
                heartbeat_sent(before.outbox@, after.outbox@, before.log@, before.id)
            } else {
                after.outbox == before.outbox
            }
        },
        LoopEvent::Peer(RaftPeerMsg::ARQ(req)) => {
            &&& after.current_state == before.current_state
            &&& after.is_setup == before.is_setup
            &&& after.id == before.id
            &&& after.current_term == before.current_term
            &&& (before.current_state == RaftNextState::RaftLeader ==> leader_handled(before, after, req))
            &&& (before.current_state == RaftNextState::RaftFollower ==> follower_handled(before, after, req))
            &&& (before.current_state == RaftNextState::RaftCandidate ==> after == before)
        },
        LoopEvent::Peer(RaftPeerMsg::StopReq) => torn_down(before, after),
        _ => after == before,
    }
}

/// Between two waits of the main loop the role does not change under the
/// task: an event other than a stop request keeps the current role, and
/// keeps it set up when it was (so its setup, which `loop_top` runs only on
/// a role not set up, runs once per role entered); a stop request tears the
/// role down.
pub proof fn lemma_events_keep_the_role(before: RaftServerState, after: RaftServerState, ev: LoopEvent)
    requires
        event_handled(before, after, ev),
    ensures
        !(ev matches LoopEvent::Peer(RaftPeerMsg::StopReq)) ==> after.current_state == before.current_state
            && after.is_setup == before.is_setup,
        (ev matches LoopEvent::Peer(RaftPeerMsg::StopReq)) ==> torn_down(before, after),
{
}

/// The start of a turn of the main loop took the task from `pre` to `top`:
/// the role is set up, and one already set up was left alone.
pub open spec fn top_step(pre: RaftServerState, top: RaftServerState) -> bool {
    &&& top.is_setup
    &&& top.current_state == pre.current_state
    &&& (pre.is_setup ==> top == pre)
}

/// `pres`, `tops` and `evs` are a run of the main loop that has not ended:
/// before its k-th wait the task was in `pres[k]`, `loop_top` took it to
/// `tops[k]`, and the event `evs[k]`, which was not a stop request, took it
/// to `pres[k + 1]`.
pub open spec fn is_loop_run(pres: Seq<RaftServerState>, tops: Seq<RaftServerState>, evs: Seq<LoopEvent>) -> bool {
    &&& pres.len() == evs.len() + 1
    &&& tops.len() == evs.len()
    &&& forall|k: int|
        #![trigger tops[k]]
        0 <= k < evs.len() ==> {
            &&& top_step(pres[k], tops[k])
            &&& event_handled(tops[k], pres[k + 1], evs[k])
            &&& !(evs[k] matches LoopEvent::Peer(RaftPeerMsg::StopReq))
        }
}

/// In a run of the main loop that starts with a role not set up, the role
/// is set up once, at the first turn, and never again, and the task keeps
/// that role: before every later wait it is set up already.
pub proof fn lemma_setup_runs_once(pres: Seq<RaftServerState>, tops: Seq<RaftServerState>, evs: Seq<LoopEvent>)
    requires
        is_loop_run(pres, tops, evs),
        !pres[0].is_setup,
    ensures
        forall|k: int| #![trigger pres[k]] 0 <= k <= evs.len() ==> (pres[k].is_setup <==> k > 0),
        forall|k: int| #![trigger pres[k]] 0 <= k <= evs.len() ==> pres[k].current_state == pres[0].current_state,
{
    assert forall|k: int| #![trigger pres[k]] 0 <= k <= evs.len() implies (pres[k].is_setup <==> k > 0)
        && pres[k].current_state == pres[0].current_state by {
        lemma_run_prefix(pres, tops, evs, k);
    }
}

proof fn lemma_run_prefix(pres: Seq<RaftServerState>, tops: Seq<RaftServerState>, evs: Seq<LoopEvent>, k: int)
    requires
        is_loop_run(pres, tops, evs),
        !pres[0].is_setup,
        0 <= k <= evs.len(),
    ensures
        pres[k].is_setup <==> k > 0,
        pres[k].current_state == pres[0].current_state,
    decreases k,
{
    if k > 0 {
        lemma_run_prefix(pres, tops, evs, k - 1);
        let t = tops[k - 1];
        assert(top_step(pres[k - 1], t));
        lemma_events_keep_the_role(t, pres[k], evs[k - 1]);
    }
}

/// A leader handled the AppendEntries request `req`: its log took what it
/// could of the request and queued the matching file writes, and when it took the request the request went on
/// to every peer.
pub open spec fn leader_handled(before: RaftServerState, after: RaftServerState, req: AppendEntriesReq) -> bool {
    let (log, res) = after_request(before.log@, req.prev_log_idx, req.prev_log_term, req.entries@);
    &&& after.log@ == log
    &&& after.log.writes@ == before.log.writes@ + request_writes(
        before.log@,
        req.prev_log_idx,
        req.prev_log_term,
        req.entries@,
    )
    &&& after.log.path == before.log.path
    &&& after.last_applied == before.last_applied
    &&& if res is Ok {
        after.outbox@ == before.outbox@.push(Outgoing::ToAllPeers(RaftRpc::RpcARQ(req)))
    } else {
        after.outbox@ == before.outbox@
    }
}

/// A follower handled the AppendEntries request `req`: it applied one more
/// entry when the leader committed beyond what it applied, and answered
/// "no" with its term when the request came from an earlier term.
pub open spec fn follower_handled(before: RaftServerState, after: RaftServerState, req: AppendEntriesReq) -> bool {
    &&& after.log == before.log
    &&& after.last_applied == if req.commit_idx > before.last_applied {
        before.last_applied + 1
    } else {
        before.last_applied as int
    }
    &&& if req.term < before.current_term {
        &&& after.outbox@.len() == before.outbox@.len() + 1
        &&& after.outbox@.drop_last() == before.outbox@
        &&& after.outbox@.last() matches Outgoing::ReplyAppendEntries(res) && !res.success
            && res.term == before.current_term
    } else {
        after.outbox@ == before.outbox@
    }
}

} // verus!
