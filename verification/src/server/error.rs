//! Errors of the server's connection handling.

use vstd::prelude::*;

verus! {

/// What can go wrong between accepting a connection and answering it.
#[derive(Debug, Clone, PartialEq, Eq)]
pub enum Error {
    /// The queue to the workers failed, carried as its message.
    Channel(String),
    /// A transport-level failure, carried as its message.
    Io(String),
    /// A malformed request line, carrying what was wrong with it.
    InvalidRequest(String),
}

} // verus!
