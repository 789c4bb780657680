//! Application-level requests and their responses.
use vstd::prelude::*;

use super::traits::RaftEvent;

verus! {

/// A request (it carries no data yet).
pub struct ApplicationReq;

/// A response (it carries no data yet).
pub struct ApplicationRes;

impl RaftEvent for ApplicationReq {}

impl RaftEvent for ApplicationRes {}

} // verus!
