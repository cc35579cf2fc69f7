//! From the use cases' users to those of the public interface.

use vstd::prelude::*;
use crate::contexts::users::{domain, router};

verus! {

/// The user as the public interface shows it: the same fields.
pub fn user(u: domain::User) -> (r: router::User)
    ensures
        r.first_name == u.first_name,
        r.last_name == u.last_name,
        r.username == u.username,
        r.email == u.email,
{
    router::User {
        first_name: u.first_name,
        last_name: u.last_name,
        username: u.username,
        email: u.email,
    }
}

} // verus!
