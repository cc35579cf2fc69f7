//! Points in time, as the records carry them.

use vstd::prelude::*;

pub mod repositories;
pub mod routers;

verus! {

/// A point in time: the seconds since the start of 1970 in UTC, and the
/// nanoseconds into that second.
#[derive(Debug, Clone, Copy, PartialEq, Eq, Structural)]
pub struct DateTime {
    pub seconds: i64,
    pub nanoseconds: u32,
}

} // verus!
