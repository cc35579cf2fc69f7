//! Places as the use cases see them.

use vstd::prelude::*;

pub mod get;

verus! {

/// The composite identifier of a place.
pub type PlaceId = String;

/// A place: its identifier and what is known of it.
#[derive(Debug)]
pub struct Place {
    pub id: PlaceId,
    pub data: PlaceData,
}

/// What is known of a place.
#[derive(Debug)]
pub struct PlaceData {
    pub name: String,
    pub description: String,
    pub address: String,
    pub postcode: String,
    pub city: String,
    pub country: String,
}

} // verus!
