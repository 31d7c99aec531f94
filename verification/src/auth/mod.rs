//! Who is logged in: the choice between local accounts and an Authelia proxy,
//! and the checks of a local login.
use vstd::prelude::*;

use crate::hashing::{bcrypt_verify_outcome, verify_password};
use vstd::utf8::is_ascii_chars;
use crate::model::user::{user_of_row, SqlUser, User, UserType};
use crate::model::Error;

pub mod authelia;

verus! {

/// The session key under which the logged-in user is kept.
pub const USER_STRING: &'static str = "user";

/// Which authentication scheme the server runs under: `Local` keeps accounts
/// with a username and password; `Authelia` trusts the identity headers that an
/// upstream reverse proxy running Authelia sets.
#[derive(Clone, Copy, Debug, PartialEq, Eq, Structural)]
pub enum AuthMode {
    Local,
    Authelia,
}

/// The scheme the `AUTH_MODE` setting selects: `authelia`, `Authelia` or
/// `AUTHELIA` select Authelia; any other value, or none, selects local accounts.
pub open spec fn mode_from_setting(value: Option<Seq<char>>) -> AuthMode {
    match value {
        Some(v) => if v == "authelia"@ || v == "Authelia"@ || v == "AUTHELIA"@ {
            AuthMode::Authelia
        } else {
            AuthMode::Local
        },
        None => AuthMode::Local,
    }
}

impl AuthMode {
    /// The scheme selected by the value of the `AUTH_MODE` setting, if it is set.
    pub fn from_setting(value: Option<&str>) -> (m: AuthMode)
        ensures
            m == mode_from_setting(
                match value {
                    Some(v) => Some(v@),
                    None => None,
                },
            ),
    {
        match value {
            Some(v) => {
                let v = String::from_str(v);
                if v == String::from_str("authelia") || v == String::from_str("Authelia") || v
                    == String::from_str("AUTHELIA") {
                    AuthMode::Authelia
                } else {
                    AuthMode::Local
                }
            },
            None => AuthMode::Local,
        }
    }

    /// Whether the identity of a request comes from the proxy's headers rather
    /// than from the session; under Authelia the login and logout forms do
    /// nothing but send the browser home.
    pub fn uses_proxy_headers(self) -> (b: bool)
        ensures
            b == (self == AuthMode::Authelia),
    {
        match self {
            AuthMode::Local => false,
            AuthMode::Authelia => true,
        }
    }

    /// What the login and registration forms do under this scheme: with local
    /// accounts they check the account (`None`); under Authelia they change
    /// nothing and send the browser to the home page.
    pub fn account_form_redirect(self) -> (r: Option<&'static str>)
        ensures
            self == AuthMode::Local ==> r is None,
            self == AuthMode::Authelia ==> (r matches Some(path) && path@ == "/"@),
    {
        match self {
            AuthMode::Local => None,
            AuthMode::Authelia => Some("/"),
        }
    }

    /// Whether the registration passwords must be configured: only local
    /// accounts are registered.
    pub fn requires_registration_passwords(self) -> (b: bool)
        ensures
            b == (self == AuthMode::Local),
    {
        match self {
            AuthMode::Local => true,
            AuthMode::Authelia => false,
        }
    }

    /// Where the browser is sent after logging out: the login page for local
    /// accounts, the home page under Authelia.
    pub fn logout_redirect(self) -> (path: &'static str)
        ensures
            path@ == (if self == AuthMode::Local {
                "/login"@
            } else {
                "/"@
            }),
    {
        match self {
            AuthMode::Local => "/login",
            AuthMode::Authelia => "/",
        }
    }
}

/// The outcome of a local login, given the stored row of the named user and
/// bcrypt's answer for the given password: the user when the password matches,
/// `Error::InvalidInput` when it does not, `Error::Hashing` when the stored hash
/// cannot be checked.
pub open spec fn login_result(row: SqlUser, outcome: Option<bool>) -> Result<User, Error> {
    match outcome {
        Some(true) => Ok(user_of_row(row)),
        Some(false) => Err(Error::InvalidInput),
        None => Err(Error::Hashing),
    }
}

/// Decides a local login from the stored row and bcrypt's answer.
pub fn login_decision(row: SqlUser, outcome: Option<bool>) -> (r: Result<User, Error>)
    ensures
        r == login_result(row, outcome),
{
    match outcome {
        Some(true) => Ok(User::from(row)),
        Some(false) => Err(Error::InvalidInput),
        None => Err(Error::Hashing),
    }
}

/// Checks a password against the stored row of the user logging in. A row
/// without a bcrypt hash, such as that of an account created by being named in
/// an entry or provisioned for an Authelia user (both have an empty password),
/// never logs in.
pub fn check_login(row: SqlUser, password: &str) -> (r: Result<User, Error>)
    ensures
        r == login_result(row, bcrypt_verify_outcome(password@, row.password@)),
        !(row.password@.len() == 60 && is_ascii_chars(row.password@)) ==> (r matches Err(e) && e
            == Error::Hashing),
{
    let outcome = verify_password(password, row.password.as_str());
    login_decision(row, outcome)
}

/// The logged-in user, from what the session holds under `USER_STRING`: a
/// request whose session holds no user is not logged in.
pub fn session_user(stored: Option<User>) -> (r: Result<User, Error>)
    ensures
        match stored {
            Some(u) => r == Ok::<User, Error>(u),
            None => r == Err::<User, Error>(Error::NotLoggedIn),
        },
{
    match stored {
        Some(u) => Ok(u),
        None => Err(Error::NotLoggedIn),
    }
}

/// The answer to "who is logged in?": the user when one is found, nobody
/// whatever the reason one is not.
pub fn current_user_from(found: Result<User, Error>) -> (r: Option<User>)
    ensures
        match found {
            Ok(u) => r == Some(u),
            Err(_) => r is None,
        },
{
    match found {
        Ok(u) => Some(u),
        Err(_) => None,
    }
}

} // verus!
