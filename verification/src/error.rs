//! The error type of the web layer.
use vstd::prelude::*;

use crate::model;

verus! {

/// An error of the web layer: a refused login, or an error of the logbook itself.
#[derive(Clone, Copy, Debug, PartialEq, Eq, Structural)]
pub enum Error {
    LoginFail,
    ModelError(model::Error),
}

impl From<model::Error> for Error {
    fn from(e: model::Error) -> (r: Self) {
        Error::ModelError(e)
    }
}

impl vstd::std_specs::convert::FromSpecImpl<model::Error> for Error {
    open spec fn obeys_from_spec() -> bool {
        true
    }

    open spec fn from_spec(e: model::Error) -> Self {
        Error::ModelError(e)
    }
}

/// The HTTP status every error of the web layer is answered with.
pub const INTERNAL_SERVER_ERROR: u16 = 500;

impl Error {
    /// The status code and body of the HTTP response for this error: every error,
    /// whatever its kind, is answered with 500 and the text `UNHANDLED ERROR`.
    pub fn response_parts(&self) -> (r: (u16, String))
        ensures
            r.0 == INTERNAL_SERVER_ERROR,
            r.1@ == "UNHANDLED ERROR"@,
    {
        (INTERNAL_SERVER_ERROR, String::from_str("UNHANDLED ERROR"))
    }
}

} // verus!
