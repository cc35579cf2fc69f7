//! What the use cases report when they fail.

use vstd::prelude::*;

verus! {

/// A listing failed.
#[derive(Debug)]
pub enum GetAllError {
    InternalServerError,
}

/// A lookup failed: nothing has the identifier, or the lookup itself broke.
#[derive(Debug)]
pub enum GetError {
    NonExistingId(String),
    InternalServerError,
}

/// A creation failed.
#[derive(Debug)]
pub enum CreateError {
    InternalServerError,
}

/// An update failed: nothing has the identifier, or the update itself broke.
#[derive(Debug)]
pub enum UpdateError {
    NonExistingId(String),
    InternalServerError,
}

/// A deletion failed: nothing has the identifier, or the deletion itself broke.
#[derive(Debug)]
pub enum DeleteError {
    NonExistingId(String),
    InternalServerError,
}

} // verus!
