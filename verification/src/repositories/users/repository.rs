//! The repository of users.

use vstd::prelude::*;
use crate::contexts::users::domain::User;
use crate::contexts::users::irepository::IRepository;

verus! {

/// A repository of users that knows a single user, of whom nothing is
/// filled in.
pub struct Repository;

impl IRepository for Repository {
    /// One user, with every field empty.
    open spec fn lists(&self, users: Seq<User>) -> bool {
        &&& users.len() == 1
        &&& users[0].first_name@ == Seq::<char>::empty()
        &&& users[0].last_name@ == Seq::<char>::empty()
        &&& users[0].username@ == Seq::<char>::empty()
        &&& users[0].email@ == Seq::<char>::empty()
    }

    fn get_users(&self) -> (users: Vec<User>) {
        let mut users: Vec<User> = Vec::new();
        users.push(
            User {
                first_name: String::new(),
                last_name: String::new(),
                username: String::new(),
                email: String::new(),
            },
        );
        users
    }
}

} // verus!
