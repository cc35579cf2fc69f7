//! The query of a listing of places.

use vstd::prelude::*;

verus! {

/// The filters that a listing of places may carry.
#[derive(Debug)]
pub struct Filters {
    pub country: Option<String>,
    pub city: Option<String>,
}

} // verus!
