//! From the use cases' places to those of the public interface.

use vstd::prelude::*;
use crate::contexts::places::{domain, router};

verus! {

/// The place as the public interface shows it: the same identifier and the
/// same fields, side by side.
pub fn place(p: domain::Place) -> (r: router::Place)
    ensures
        r.id == p.id,
        r.name == p.data.name,
        r.description == p.data.description,
        r.address == p.data.address,
        r.postcode == p.data.postcode,
        r.city == p.data.city,
        r.country == p.data.country,
{
    router::Place {
        id: p.id,
        name: p.data.name,
        description: p.data.description,
        address: p.data.address,
        postcode: p.data.postcode,
        city: p.data.city,
        country: p.data.country,
    }
}

} // verus!
