//! From the use cases' routes to those of the public interface.

use vstd::prelude::*;
use crate::contexts::routes::{domain, router};
use crate::typeutil::routers::Date;

verus! {

/// The route as the public interface shows it: the same identifier and the
/// same fields, side by side.
pub fn route(r: domain::Route) -> (out: router::Route)
    ensures
        out.id == r.id,
        out.place_id == r.data.place_id,
        out.name == r.data.name,
        out.description == r.data.description,
        out.grade == r.data.grade,
        out.color == r.data.color,
        out.sector == r.data.sector,
        out.rules.sitstart == r.data.rules.sitstart,
        out.rules.modules_allowed == r.data.rules.modules_allowed,
        out.rules.edges_allowed == r.data.rules.edges_allowed,
        out.opening_date == Date(r.data.opening_date),
        out.closing_date == match r.data.closing_date {
            Some(d) => Some(Date(d)),
            None => None,
        },
        out.tags == r.data.tags,
        out.properties == r.data.properties,
{
    router::Route {
        id: route_id(r.id),
        place_id: r.data.place_id,
        name: r.data.name,
        description: r.data.description,
        grade: r.data.grade,
        color: r.data.color,
        sector: r.data.sector,
        rules: rules(r.data.rules),
        opening_date: date(r.data.opening_date),
        closing_date: match r.data.closing_date {
            Some(d) => Some(date(d)),
            None => None,
        },
        tags: r.data.tags,
        properties: r.data.properties,
    }
}

/// The date, wrapped for the public interface.
pub fn date(d: domain::Date) -> (out: Date)
    ensures
        out == Date(d),
{
    Date(d)
}

/// The identifier, as it is.
pub fn route_id(id: domain::RouteId) -> (out: router::RouteId)
    ensures
        out == id,
{
    id
}

/// The rules, as they are.
pub fn rules(r: domain::Rules) -> (out: router::Rules)
    ensures
        out.sitstart == r.sitstart,
        out.modules_allowed == r.modules_allowed,
        out.edges_allowed == r.edges_allowed,
{
    router::Rules {
        sitstart: r.sitstart,
        modules_allowed: r.modules_allowed,
        edges_allowed: r.edges_allowed,
    }
}

} // verus!
