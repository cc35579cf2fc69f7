//! Places as the sources hold them, with a textual identifier.

use vstd::prelude::*;
use crate::repositories::common::{
    follows_plan, is_dispatch_plan, single_plan, FetchError, Identifiable, Manager, Method,
    Request,
};
use crate::repositories::dispatch::{Dispatch, Outcome};

pub mod repository;

verus! {

/// A place as a source returns it.
#[derive(Debug)]
pub struct Place {
    pub id: String,
    pub name: String,
    pub description: String,
    pub address: String,
    pub postcode: String,
    pub city: String,
    pub country: String,
}

impl Identifiable for Place {
    open spec fn ident(&self) -> Seq<char> {
        self.id@
    }

    open spec fn same_but_ident(&self, other: &Self) -> bool {
        &&& other.name == self.name
        &&& other.description == self.description
        &&& other.address == self.address
        &&& other.postcode == self.postcode
        &&& other.city == self.city
        &&& other.country == self.country
    }

    /// The field `id` itself.
    fn id(&mut self) -> (r: &mut String)
        ensures
            *r == old(self).id,
            final(self).id == *final(r),
    {
        &mut self.id
    }
}

/// A repository of places that hands them out as the sources hold them.
pub struct PlacesRepository {
    manager: Manager<Place>,
}

impl PlacesRepository {
    /// The engine that the repository asks.
    pub closed spec fn manager(&self) -> Manager<Place> {
        self.manager
    }

    /// The engine that the repository asks.
    pub fn engine(&self) -> (m: &Manager<Place>)
        ensures
            *m == self.manager(),
    {
        &self.manager
    }

    /// A repository over the engine `manager`.
    pub fn new(manager: Manager<Place>) -> (r: Self)
        ensures
            r.manager() == manager,
    {
        Self { manager: manager }
    }

    /// The request that fetches the place with the composite identifier `id`.
    pub fn get_request(&self, id: &str) -> (r: Result<Request, FetchError>)
        ensures
            follows_plan(
                r,
                Method::Get,
                single_plan(self.manager().config().sources@, id@, "places"@),
            ),
    {
        self.manager.get_request(id, "places")
    }

    /// Begins the listing of all places: a `GET` of `places` to every source.
    pub fn get_all_dispatch(&self) -> (d: Dispatch<Place>)
        ensures
            d.wf(),
            d.started() == 0,
            d.absorbed() == Seq::<Outcome<Place>>::empty(),
            is_dispatch_plan(d.requests(), self.manager().config().sources@, "places"@),
    {
        let path = "places";
        self.manager.dispatch(path)
    }
}

} // verus!
