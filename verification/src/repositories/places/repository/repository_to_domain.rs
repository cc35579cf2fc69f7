//! From the sources' places to those of the use cases.

use vstd::prelude::*;
use crate::contexts::places::domain;
use crate::repositories::common::{last_value, Identifiable};
use crate::repositories::places::repository::Place;
use crate::repositories::text::same_text;

verus! {

/// `out` is the place `p` as the use cases see it: its identifier as text,
/// and the same fields.
pub open spec fn same_place(p: Place, out: domain::Place) -> bool {
    &&& out.id@ == p.ident()
    &&& out.data.name == p.name
    &&& out.data.description == p.description
    &&& out.data.address == p.address
    &&& out.data.postcode == p.postcode
    &&& out.data.city == p.city
    &&& out.data.country == p.country
}

/// The place as the use cases see it.
pub fn place(p: Place) -> (r: domain::Place)
    ensures
        same_place(p, r),
{
    let mut p = p;
    let id = p.id().clone();
    domain::Place {
        id,
        data: domain::PlaceData {
            name: p.name,
            description: p.description,
            address: p.address,
            postcode: p.postcode,
            city: p.city,
            country: p.country,
        },
    }
}

/// The filters that a list of names and values stands for: the values
/// named `country` and `city`, the last of each; other names are passed
/// over.
pub fn filters(f: Vec<(String, String)>) -> (r: domain::get::Filters)
    ensures
        r.country == last_value(f@, "country"@),
        r.city == last_value(f@, "city"@),
{
    let mut out = domain::get::Filters { country: None, city: None };
    let ghost all = f@;
    for pair in it: f
        invariant
            it.seq() == all,
            out.country == last_value(all.take(it.index() as int), "country"@),
            out.city == last_value(all.take(it.index() as int), "city"@),
    {
        proof {
            let k = it.index() as int;
            assert(all.take(k + 1).drop_last() == all.take(k));
            assert(all.take(k + 1).last() == pair);
            reveal_strlit("country");
            reveal_strlit("city");
            assert("country"@.len() == 7 && "city"@.len() == 4);
        }
        if same_text(pair.0.as_str(), "country") {
            out.country = Some(pair.1);
        } else if same_text(pair.0.as_str(), "city") {
            out.city = Some(pair.1);
        }
    }
    proof {
        assert(all.take(all.len() as int) == all);
    }
    out
}

} // verus!
