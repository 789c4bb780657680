//! The server's own error type.
use vstd::prelude::*;

verus! {

/// An error of the server, with its message.
#[derive(Debug)]
pub enum SError {
    InvalidArgument(String),
    InvalidState(String),
}

} // verus!
