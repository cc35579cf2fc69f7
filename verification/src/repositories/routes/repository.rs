//! Routes as the sources hold them, and what the repository of routes
//! decides.

use vstd::prelude::*;
use crate::contexts::routes::domain;
use crate::errors::{GetAllError, GetError};
use crate::repositories::common::{
    distinct_names, follows_plan, is_dispatch_plan, pair_views, path_with_filters, path_with_filters_spec, single_plan,
    FetchError, Identifiable, Manager, Method, Request,
};
use crate::repositories::dispatch::{Dispatch, Outcome};
use crate::repositories::routes::repository::repository_to_domain::same_route;
use crate::typeutil::repositories::Date;

pub mod domain_to_repository;
pub mod repository_to_domain;
pub mod round_trip;

verus! {

/// What a climber may use on a route.
#[derive(Debug)]
pub struct Rules {
    pub sitstart: bool,
    pub modules_allowed: bool,
    pub edges_allowed: bool,
}

/// A route as a source returns it.
#[derive(Debug)]
pub struct Route {
    pub id: String,
    pub place_id: String,
    pub name: String,
    pub description: String,
    pub grade: String,
    pub color: String,
    pub sector: String,
    pub opening_date: Date,
    pub closing_date: Option<Date>,
    pub rules: Rules,
    pub tags: Vec<String>,
    pub properties: Vec<(String, String)>,
}

impl Route {
    /// The properties are well formed: no name stands twice.
    pub open spec fn wf(&self) -> bool {
        distinct_names(pair_views(self.properties@))
    }
}

impl Identifiable for Route {
    open spec fn ident(&self) -> Seq<char> {
        self.id@
    }

    open spec fn same_but_ident(&self, other: &Self) -> bool {
        &&& other.place_id == self.place_id
        &&& other.name == self.name
        &&& other.description == self.description
        &&& other.grade == self.grade
        &&& other.color == self.color
        &&& other.sector == self.sector
        &&& other.opening_date == self.opening_date
        &&& other.closing_date == self.closing_date
        &&& other.rules == self.rules
        &&& other.tags == self.tags
        &&& other.properties == self.properties
    }

    /// The field `id` itself.
    fn id(&mut self) -> (r: &mut String)
        ensures
            *r == old(self).id,
            final(self).id == *final(r),
    {
        &mut self.id
    }
}

/// The repository of routes: what it asks of the engine, and what it makes
/// of the engine's answers.
pub struct Repository {
    manager: Manager<Route>,
}

impl Repository {
    /// The engine that the repository asks.
    pub closed spec fn manager(&self) -> Manager<Route> {
        self.manager
    }

    /// The engine that the repository asks.
    pub fn engine(&self) -> (m: &Manager<Route>)
        ensures
            *m == self.manager(),
    {
        &self.manager
    }

    /// A repository over the engine `manager`.
    pub fn new(manager: Manager<Route>) -> (r: Self)
        ensures
            r.manager() == manager,
    {
        Self { manager }
    }

    /// Begins the listing of the routes that pass `filters`: a `GET` of
    /// `routes`, the filters behind it, to every source.
    pub fn get_all_dispatch(&self, filters: domain::get::Filters) -> (d: Dispatch<Route>)
        ensures
            d.wf(),
            d.started() == 0,
            d.absorbed() == Seq::<Outcome<Route>>::empty(),
            is_dispatch_plan(
                d.requests(),
                self.manager().config().sources@,
                path_with_filters_spec("routes"@, domain_to_repository::filter_pairs(filters)),
            ),
    {
        let path = path_with_filters("routes", domain_to_repository::get_filters(filters));
        self.manager.dispatch(path.as_str())
    }

    /// What a finished listing means: the routes as the use cases see them,
    /// in the order given; a listing without a single route is reported as
    /// a failure, whether the sources failed or had none.
    pub fn get_all_result(&self, routes: Vec<Route>) -> (r: Result<
        Vec<domain::Route>,
        GetAllError,
    >)
        ensures
            if routes@.len() == 0 {
                r matches Err(GetAllError::InternalServerError)
            } else {
                &&& r matches Ok(list)
                &&& list@.len() == routes@.len()
                &&& forall|i: int|
                    0 <= i < routes@.len() ==> same_route(#[trigger] routes@[i], list@[i])
            },
    {
        if routes.len() == 0 {
            return Err(GetAllError::InternalServerError);
        }
        let mut list: Vec<domain::Route> = Vec::new();
        let ghost all = routes@;
        for r in it: routes
            invariant
                it.seq() == all,
                list@.len() == it.index(),
                forall|i: int| 0 <= i < it.index() ==> same_route(#[trigger] all[i], list@[i]),
        {
            list.push(repository_to_domain::route(r));
        }
        Ok(list)
    }

    /// The request that fetches the route with the composite identifier `id`.
    pub fn get_request(&self, id: &str) -> (r: Result<Request, FetchError>)
        ensures
            follows_plan(
                r,
                Method::Get,
                single_plan(self.manager().config().sources@, id@, "routes"@),
            ),
    {
        self.manager.get_request(id, "routes")
    }

    /// What the engine's answer to the lookup of `id` means: the route as
    /// the use cases see it; "nothing has this identifier" where the source
    /// said so, where the identifier cannot be read or where it names no
    /// source; a failure of the lookup in every other case.
    pub fn get_result(&self, id: domain::RouteId, outcome: Result<Option<Route>, FetchError>) -> (r:
        Result<domain::Route, GetError>)
        ensures
            match outcome {
                Ok(Some(found)) => r matches Ok(out) && same_route(found, out),
                Ok(None) | Err(FetchError::Decode) | Err(FetchError::SourceNotFound) => r
                    == Err::<domain::Route, GetError>(GetError::NonExistingId(id)),
                Err(_) => r == Err::<domain::Route, GetError>(GetError::InternalServerError),
            },
    {
        match outcome {
            Ok(Some(found)) => Ok(repository_to_domain::route(found)),
            Ok(None) => Err(GetError::NonExistingId(id)),
            Err(FetchError::Decode) => Err(GetError::NonExistingId(id)),
            Err(FetchError::SourceNotFound) => Err(GetError::NonExistingId(id)),
            Err(_) => Err(GetError::InternalServerError),
        }
    }
}

} // verus!
