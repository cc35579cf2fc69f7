//! Routes as they travel over the public interface.

use vstd::prelude::*;
use crate::typeutil::routers::Date;

pub mod get;

verus! {

/// The composite identifier of a route.
pub type RouteId = String;

/// The composite identifier of a place.
pub type PlaceId = String;

/// A route with its identifier.
#[derive(Debug)]
pub struct Route {
    pub id: RouteId,
    pub place_id: PlaceId,
    pub name: String,
    pub description: String,
    pub grade: String,
    pub color: String,
    pub sector: String,
    pub opening_date: Date,
    pub closing_date: Option<Date>,
    pub rules: Rules,
    pub tags: Vec<String>,
    pub properties: Vec<(String, String)>,
}

/// A route without an identifier, as a client sends it.
#[derive(Debug)]
pub struct RouteData {
    pub place_id: PlaceId,
    pub name: String,
    pub description: String,
    pub grade: String,
    pub color: String,
    pub sector: String,
    pub opening_date: Date,
    pub closing_date: Option<Date>,
    pub rules: Rules,
    pub tags: Vec<String>,
    pub properties: Vec<(String, String)>,
}

/// What a climber may use on a route.
#[derive(Debug)]
pub struct Rules {
    pub sitstart: bool,
    pub modules_allowed: bool,
    pub edges_allowed: bool,
}

} // verus!
