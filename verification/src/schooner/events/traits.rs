//! The common trait of the events sent down to the Raft main loop.
use vstd::prelude::*;

verus! {

/// An event that can travel to the main loop on a channel.
pub trait RaftEvent: Send {
    /// Answers a request event with `response`; reports whether an answer
    /// was sent.  Events carry no channel of their own yet, so by default
    /// nothing is sent.
    fn respond<R: Send>(&self, _response: R) -> (sent: bool)
        default_ensures
            !sent,
    {
        false
    }
}

} // verus!
