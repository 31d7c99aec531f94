//! Loodsen Boekje: a logbook of the ways a beer has been opened.
//!
//! This library holds the rules of the site: which names and passwords are
//! accepted, how usernames are normalised, who may read or change the
//! logbook, how an account is registered and checked at login, and how a
//! user's role follows from the groups an Authelia proxy reports.
use vstd::prelude::*;

pub mod text;
pub mod hashing;
pub mod error;
pub mod model;
pub mod auth;
pub mod view;
pub mod laws;

verus! {

} // verus!
