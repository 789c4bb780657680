//! Client commands and Raft's responses to them.
use vstd::prelude::*;

use super::traits::RaftEvent;

verus! {

/// A request (it carries no data yet).
pub struct ClientCmdReq;

/// A response (it carries no data yet).
pub struct ClientCmdRes;

impl RaftEvent for ClientCmdReq {}

impl RaftEvent for ClientCmdRes {}

} // verus!
