//! From the public interface's routes to those of the use cases.

use vstd::prelude::*;
use crate::contexts::routes::{domain, router};
use crate::typeutil::routers::Date;

pub mod get;

verus! {

/// The identifier, as it is.
pub fn route_id(id: router::RouteId) -> (out: domain::RouteId)
    ensures
        out == id,
{
    id
}

/// The fields of the route, as they are.
pub fn route_data(rd: router::RouteData) -> (out: domain::RouteData)
    ensures
        out.place_id == rd.place_id,
        out.name == rd.name,
        out.description == rd.description,
        out.grade == rd.grade,
        out.color == rd.color,
        out.sector == rd.sector,
        out.rules.sitstart == rd.rules.sitstart,
        out.rules.modules_allowed == rd.rules.modules_allowed,
        out.rules.edges_allowed == rd.rules.edges_allowed,
        out.opening_date == rd.opening_date.0,
        out.closing_date == match rd.closing_date {
            Some(d) => Some(d.0),
            None => None,
        },
        out.tags == rd.tags,
        out.properties == rd.properties,
{
    domain::RouteData {
        place_id: rd.place_id,
        name: rd.name,
        description: rd.description,
        grade: rd.grade,
        color: rd.color,
        sector: rd.sector,
        rules: rules(rd.rules),
        opening_date: date(rd.opening_date),
        closing_date: match rd.closing_date {
            Some(d) => Some(date(d)),
            None => None,
        },
        tags: rd.tags,
        properties: rd.properties,
    }
}

/// The date that the wrapper holds.
pub fn date(d: Date) -> (out: domain::Date)
    ensures
        out == d.0,
{
    d.0
}

/// The rules, as they are.
pub fn rules(r: router::Rules) -> (out: domain::Rules)
    ensures
        out.sitstart == r.sitstart,
        out.modules_allowed == r.modules_allowed,
        out.edges_allowed == r.edges_allowed,
{
    domain::Rules {
        sitstart: r.sitstart,
        modules_allowed: r.modules_allowed,
        edges_allowed: r.edges_allowed,
    }
}

} // verus!
