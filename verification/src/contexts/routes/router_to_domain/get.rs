//! The filters of a listing, from the public interface to the use cases.

use vstd::prelude::*;
use crate::contexts::routes::domain::get as domain;
use crate::contexts::routes::router::get as router;

verus! {

/// The filters, as they are.
pub fn filters(f: router::Filters) -> (r: domain::Filters)
    ensures
        r.min_grade == f.min_grade,
        r.max_grade == f.max_grade,
        r.tags == f.tags,
        r.properties == f.properties,
{
    domain::Filters {
        min_grade: f.min_grade,
        max_grade: f.max_grade,
        tags: f.tags,
        properties: f.properties,
    }
}

} // verus!
