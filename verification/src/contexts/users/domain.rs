//! Users as the use cases see them.

use vstd::prelude::*;

verus! {

/// A user of the system.
#[derive(Debug)]
pub struct User {
    pub first_name: String,
    pub last_name: String,
    pub username: String,
    pub email: String,
}

} // verus!
