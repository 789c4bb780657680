//! Schooner: a Raft consensus node, with its log, message framing,
//! peer configuration and state machines verified with Verus.
#![allow(unused_imports)]

pub mod append_entries;
pub mod handles;
pub mod log;
pub mod log_entry;
pub mod schooner;
pub mod serror;
pub mod server;
pub mod text;
