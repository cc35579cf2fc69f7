//! Places as the sources hold them, with a numeric local identifier, and
//! what the repository of places decides.

use vstd::prelude::*;
use crate::contexts::places::domain;
use crate::errors::GetAllError;
use crate::repositories::common::{is_dispatch_plan, FetchError, Identifiable, Manager};
use crate::repositories::dispatch::{Dispatch, Outcome};
use crate::repositories::places::repository::repository_to_domain::same_place;
use crate::repositories::text::{dec_digits, push_decimal};

pub mod domain_to_repository;
pub mod repository_to_domain;

verus! {

/// A place as a source returns it: `id` is the number that the source gave
/// it, `_id` the identifier as text once the engine has asked for it.
#[derive(Debug)]
pub struct Place {
    pub _id: Option<String>,
    pub id: u32,
    pub name: String,
    pub description: String,
    pub address: String,
    pub postcode: String,
    pub city: String,
    pub country: String,
}

impl Identifiable for Place {
    /// The textual identifier where there is one, else the number in decimal.
    open spec fn ident(&self) -> Seq<char> {
        match self._id {
            Some(text) => text@,
            None => dec_digits(self.id as int),
        }
    }

    open spec fn same_but_ident(&self, other: &Self) -> bool {
        &&& other.id == self.id
        &&& other.name == self.name
        &&& other.description == self.description
        &&& other.address == self.address
        &&& other.postcode == self.postcode
        &&& other.city == self.city
        &&& other.country == self.country
    }

    /// The identifier as text: the text that `_id` holds, which is kept, or,
    /// where it holds none, the number in decimal, which `_id` holds from
    /// then on. What is written through the reference is what `_id` holds
    /// afterwards.
    fn id(&mut self) -> (r: &mut String)
        ensures
            final(self)._id == Some(*final(r)),
            old(self)._id matches Some(x) ==> *r == x,
            old(self)._id is None ==> r@ == dec_digits(old(self).id as int),
    {
        if self._id.is_none() {
            let mut text = String::new();
            push_decimal(&mut text, self.id as u64);
            self._id = Some(text);
        }
        match &mut self._id {
            Some(text) => text,
            None => vstd::pervasive::unreached(),
        }
    }
}

/// The repository of places: what it asks of the engine, and what it makes
/// of the engine's answers.
pub struct Repository {
    manager: Manager<Place>,
}

impl Repository {
    /// The engine that the repository asks.
    pub closed spec fn manager(&self) -> Manager<Place> {
        self.manager
    }

    /// The engine that the repository asks.
    pub fn engine(&self) -> (m: &Manager<Place>)
        ensures
            *m == self.manager(),
    {
        &self.manager
    }

    /// A repository over the engine `manager`.
    pub fn new(manager: Manager<Place>) -> (r: Self)
        ensures
            r.manager() == manager,
    {
        Self { manager }
    }

    /// Begins the listing of the places: a `GET` of `places` to every
    /// source. The filters do not narrow it.
    pub fn get_all_dispatch(&self, filters: domain::get::Filters) -> (d: Dispatch<Place>)
        ensures
            d.wf(),
            d.started() == 0,
            d.absorbed() == Seq::<Outcome<Place>>::empty(),
            is_dispatch_plan(d.requests(), self.manager().config().sources@, "places"@),
    {
        self.manager.dispatch("places")
    }

    /// What a finished listing means: the places as the use cases see them,
    /// in the order given. Sources that failed do not make the listing fail.
    pub fn get_all_result(&self, places: Vec<Place>) -> (r: Result<
        Vec<domain::Place>,
        GetAllError,
    >)
        ensures
            r matches Ok(list) && list@.len() == places@.len() && forall|i: int|
                0 <= i < places@.len() ==> same_place(#[trigger] places@[i], list@[i]),
    {
        let mut list: Vec<domain::Place> = Vec::new();
        let ghost all = places@;
        for p in it: places
            invariant
                it.seq() == all,
                list@.len() == it.index(),
                forall|i: int| 0 <= i < it.index() ==> same_place(#[trigger] all[i], list@[i]),
        {
            list.push(repository_to_domain::place(p));
        }
        Ok(list)
    }
}

} // verus!
