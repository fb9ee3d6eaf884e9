//! Errors of the calendar module.

use vstd::prelude::*;

verus! {

/// What can go wrong when calendar values are built from raw numbers.
#[derive(Debug, Clone, Copy, PartialEq, Eq, Structural)]
pub enum Error {
    /// A month number outside 1 through 12.
    InvalidMonth,
}

} // verus!
