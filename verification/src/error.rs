//! Top-level errors of the library.

use crate::pool;
use vstd::prelude::*;
use vstd::string::*;

verus! {

/// What the library as a whole reports: a pool failure or an
/// input/output failure, each carried as its message.
#[derive(Debug, Clone, PartialEq, Eq)]
pub enum Error {
    /// A worker-pool failure.
    Pool(String),
    /// An input/output failure.
    IO(String),
}

impl Error {
    /// The error as text.
    pub fn message(&self) -> (m: String)
        ensures
            (*self matches Error::Pool(s) ==> m@ == "pool error: "@ + s@),
            (*self matches Error::IO(s) ==> m@ == "io error: "@ + s@),
    {
        match self {
            Error::Pool(s) => {
                let mut m = String::from_str("pool error: ");
                m.append(s.as_str());
                m
            },
            Error::IO(s) => {
                let mut m = String::from_str("io error: ");
                m.append(s.as_str());
                m
            },
        }
    }
}

impl Error {
    /// A pool error becomes the top-level pool variant, carrying the pool
    /// error's own message.
    pub fn from_pool(err: pool::Error) -> (r: Error)
        ensures
            r matches Error::Pool(s) && (err == pool::Error::EmptyPool ==> s@
                == "cannot create a zero sized thread pool"@) && (err
                == pool::Error::ChannelClosed ==> s@ == "channel closed"@),
    {
        Error::Pool(err.message())
    }
}

} // verus!
