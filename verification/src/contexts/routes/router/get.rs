//! The query of a listing of routes.

use vstd::prelude::*;

verus! {

/// The filters that a listing of routes may carry.
#[derive(Debug)]
pub struct Filters {
    pub min_grade: Option<String>,
    pub max_grade: Option<String>,
    pub tags: Vec<String>,
    pub properties: Vec<(String, String)>,
}

} // verus!
