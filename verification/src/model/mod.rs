//! The data of the logbook (users and entries) and the rules on it.
use vstd::prelude::*;

pub mod user;
pub mod entry;

verus! {

/// Why a request on the logbook was refused.
#[derive(Clone, Copy, Debug, PartialEq, Eq, Structural)]
pub enum Error {
    /// No user is logged in for the request.
    NotLoggedIn,
    /// The logged-in user's role does not allow the request.
    NoPermission,
    /// A name, password or field was rejected.
    InvalidInput,
    /// The database could not be reached or refused the query.
    Database,
    /// Password hashing or hash checking failed.
    Hashing,
}

} // verus!
