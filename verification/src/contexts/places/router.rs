//! Places as they travel over the public interface.

use vstd::prelude::*;

pub mod get;

verus! {

/// The composite identifier of a place.
pub type PlaceId = String;

/// The filters that a request for places may carry.
#[derive(Debug)]
pub struct Filters {
    pub country: Option<String>,
    pub city: Option<String>,
}

/// A place with its identifier.
#[derive(Debug)]
pub struct Place {
    pub id: PlaceId,
    pub name: String,
    pub description: String,
    pub address: String,
    pub postcode: String,
    pub city: String,
    pub country: String,
}

/// A place without an identifier, as a client sends it.
#[derive(Debug)]
pub struct PlaceData {
    pub name: String,
    pub description: String,
    pub address: String,
    pub postcode: String,
    pub city: String,
    pub country: String,
}

} // verus!
