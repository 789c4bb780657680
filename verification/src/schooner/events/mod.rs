//! The events that reach the Raft main loop.
use vstd::prelude::*;
use std::sync::mpsc::Sender;

pub mod append_entries;
pub mod application;
pub mod client;
pub mod handoff;
pub mod traits;
pub mod vote;

pub use self::append_entries::{AppendEntriesReq, AppendEntriesRes};
pub use self::application::{ApplicationReq, ApplicationRes};
pub use self::client::{ClientCmdReq, ClientCmdRes};
pub use self::handoff::{HandoffReq, HandoffRes};
pub use self::traits::RaftEvent;
pub use self::vote::{VoteReq, VoteRes};

verus! {

/// A message from the network layer to the Raft main loop.  Requests
/// carry the channel on which their response goes back.
pub enum RaftMsg {
    ARQ(AppendEntriesReq, Sender<AppendEntriesRes>),
    ARS(AppendEntriesRes),
    VRQ(VoteReq, Sender<VoteRes>),
    VRS(VoteRes),
    StopReq,
}

} // verus!
