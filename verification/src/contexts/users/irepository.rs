//! What the use cases of users ask of a repository.

use vstd::prelude::*;
use crate::contexts::users::domain::User;

verus! {

/// A repository of users.
pub trait IRepository {
    /// `users` is a listing that this repository may give.
    spec fn lists(&self, users: Seq<User>) -> bool;

    /// The users of the system.
    fn get_users(&self) -> (users: Vec<User>)
        ensures
            self.lists(users@),
    ;
}

} // verus!
