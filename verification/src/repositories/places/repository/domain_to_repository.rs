//! From the use cases' places to those of the sources.

use vstd::prelude::*;
use crate::contexts::places::domain;
use crate::repositories::common::pair_views;
use crate::repositories::places::repository::Place;
use crate::repositories::text::{dec_numeral, parse_decimal_u32};

verus! {

/// The place as a source holds it: the number that its identifier, a local
/// one, denotes, the identifier itself as text, and the same fields.
pub fn place(p: domain::Place) -> (r: Place)
    requires
        dec_numeral(p.id@, u32::MAX as int) is Some,
    ensures
        Some(r.id as int) == dec_numeral(p.id@, u32::MAX as int),
        r._id == Some(p.id),
        r.name == p.data.name,
        r.description == p.data.description,
        r.address == p.data.address,
        r.postcode == p.data.postcode,
        r.city == p.data.city,
        r.country == p.data.country,
{
    let id = match parse_decimal_u32(p.id.as_str()) {
        Some(n) => n,
        None => vstd::pervasive::unreached(),
    };
    Place {
        id,
        _id: Some(p.id),
        name: p.data.name,
        description: p.data.description,
        address: p.data.address,
        postcode: p.data.postcode,
        city: p.data.city,
        country: p.data.country,
    }
}

/// The names and values that the filters stand for: `country` first, then
/// `city`, each only where it is set.
pub open spec fn filter_pairs(f: domain::get::Filters) -> Seq<(Seq<char>, Seq<char>)> {
    let country = match f.country {
        Some(c) => seq![("country"@, c@)],
        None => Seq::empty(),
    };
    let city = match f.city {
        Some(c) => seq![("city"@, c@)],
        None => Seq::empty(),
    };
    country + city
}

/// The filters as a list of names and values.
pub fn filters(f: domain::get::Filters) -> (r: Vec<(String, String)>)
    ensures
        pair_views(r@) == filter_pairs(f),
{
    let mut out: Vec<(String, String)> = Vec::new();
    if let Some(country) = f.country {
        out.push(("country".to_owned(), country));
    }
    if let Some(city) = f.city {
        out.push(("city".to_owned(), city));
    }
    out
}

} // verus!
