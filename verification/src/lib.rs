//! A small web-server library: a worker-pool dispatch engine together with
//! request-line parsing and response synthesis, plus supporting calendar and
//! percent-encoding utilities.
//!
//! The pool, parser and response code hold the decision logic; listening
//! sockets, worker threads and file reads live with the embedding program.

pub mod error;
pub mod logger;
pub mod pool;
pub mod server;
pub mod text;
pub mod time;
pub mod url;

pub use error::Error;
pub use logger::SimpleLogger;
pub use time::DateTime;

use vstd::prelude::*;

verus! {

/// Number of workers a server's pool is built with.
pub const DEFAULT_POOL_SIZE: usize = 4;

} // verus!
