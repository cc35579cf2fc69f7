//! What a listing of routes can be narrowed by.

use vstd::prelude::*;
use crate::contexts::routes::domain::RouteProperties;
use crate::repositories::common::{distinct_names, pair_views};

verus! {

/// The filters of a listing of routes.
pub struct Filters {
    pub min_grade: Option<String>,
    pub max_grade: Option<String>,
    pub tags: Vec<String>,
    pub properties: RouteProperties,
}

impl Filters {
    /// The properties are well formed: no name stands twice.
    pub open spec fn wf(&self) -> bool {
        distinct_names(pair_views(self.properties@))
    }
}

} // verus!
