//! Dates as the sources carry them.

use vstd::prelude::*;
use crate::typeutil::DateTime;

verus! {

/// A date as a source carries it.
#[derive(Debug, Clone, Copy, PartialEq, Eq, Structural)]
pub struct Date(pub DateTime);

} // verus!
