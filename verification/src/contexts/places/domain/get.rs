//! What a listing of places can be narrowed by.

use vstd::prelude::*;

verus! {

/// The filters of a listing of places; `None` leaves a field open.
#[derive(Debug)]
pub struct Filters {
    pub country: Option<String>,
    pub city: Option<String>,
}

} // verus!
