//! The Raft node: replicated log, events, network framing, peers and the
//! state machine of the server.
pub mod consistent_log;
pub mod events;
pub mod append_entries;
pub mod log;
pub mod log_entry;
pub mod net;
pub mod peer;
pub mod state_machine;
pub mod candidate;
pub mod follower;
pub mod leader;
pub mod server;
