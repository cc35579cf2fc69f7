//! Users as they travel over the public interface.

use vstd::prelude::*;

verus! {

/// The filters that a request for users may carry.
#[derive(Debug)]
pub struct Filters {
    pub country: Option<String>,
    pub city: Option<String>,
}

/// A user as the public interface shows it.
#[derive(Debug)]
pub struct User {
    pub first_name: String,
    pub last_name: String,
    pub username: String,
    pub email: String,
}

} // verus!
