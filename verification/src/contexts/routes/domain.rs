//! Routes as the use cases see them.

use vstd::prelude::*;
use crate::contexts::places::domain::PlaceId;
use crate::repositories::common::{distinct_names, pair_views};
use crate::typeutil::DateTime;

pub mod get;

verus! {

/// Free-form properties of a route, each a name and a value. A name stands
/// once at most: `RouteData::wf` and `Filters::wf` say so, and
/// `has_distinct_names` tells it of a list.
pub type RouteProperties = Vec<(String, String)>;

/// The composite identifier of a route.
pub type RouteId = String;

/// A point in time.
pub type Date = DateTime;

/// What is known of a route.
#[derive(Debug)]
pub struct RouteData {
    pub place_id: PlaceId,
    pub name: String,
    pub description: String,
    pub grade: String,
    pub color: String,
    pub sector: String,
    pub opening_date: Date,
    pub closing_date: Option<Date>,
    pub rules: Rules,
    pub tags: Vec<String>,
    pub properties: RouteProperties,
}

/// What a climber may use on a route.
#[derive(Debug)]
pub struct Rules {
    pub sitstart: bool,
    pub modules_allowed: bool,
    pub edges_allowed: bool,
}

/// A route: its identifier and what is known of it.
#[derive(Debug)]
pub struct Route {
    pub id: RouteId,
    pub data: RouteData,
}

impl RouteData {
    /// The properties are well formed: no name stands twice.
    pub open spec fn wf(&self) -> bool {
        distinct_names(pair_views(self.properties@))
    }
}

impl Route {
    /// The route's data is well formed.
    pub open spec fn wf(&self) -> bool {
        self.data.wf()
    }
}

} // verus!
