//! The filters of a listing, from the public interface to the use cases.

use vstd::prelude::*;
use crate::contexts::places::domain::get as domain;
use crate::contexts::places::router::get as router;

verus! {

/// The filters, as they are.
pub fn filters(f: router::Filters) -> (r: domain::Filters)
    ensures
        r.country == f.country,
        r.city == f.city,
{
    domain::Filters { country: f.country, city: f.city }
}

} // verus!
