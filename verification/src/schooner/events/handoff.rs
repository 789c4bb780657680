//! Follower-to-leader handoff of requests.
use vstd::prelude::*;

use super::traits::RaftEvent;

verus! {

/// A request (it carries no data yet).
pub struct HandoffReq;

/// A response (it carries no data yet).
pub struct HandoffRes;

impl RaftEvent for HandoffReq {}

impl RaftEvent for HandoffRes {}

} // verus!
