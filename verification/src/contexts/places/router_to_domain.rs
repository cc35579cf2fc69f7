//! From the public interface's places to those of the use cases.

use vstd::prelude::*;
use crate::contexts::places::{domain, router};

pub mod get;

verus! {

/// The identifier, as it is.
pub fn place_id(id: router::PlaceId) -> (r: domain::PlaceId)
    ensures
        r == id,
{
    id
}

/// The fields of the place, as they are.
pub fn place_data(pd: router::PlaceData) -> (r: domain::PlaceData)
    ensures
        r.name == pd.name,
        r.description == pd.description,
        r.address == pd.address,
        r.postcode == pd.postcode,
        r.city == pd.city,
        r.country == pd.country,
{
    domain::PlaceData {
        name: pd.name,
        description: pd.description,
        address: pd.address,
        postcode: pd.postcode,
        city: pd.city,
        country: pd.country,
    }
}

} // verus!
