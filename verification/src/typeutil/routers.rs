//! Dates on the public interface.

use vstd::prelude::*;
use crate::typeutil::DateTime;

verus! {

/// A date as the public interface carries it.
#[derive(Debug, Clone, Copy, PartialEq, Eq, Structural)]
pub struct Date(pub DateTime);

} // verus!
