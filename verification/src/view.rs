//! What the pages show to whom: the decisions behind the site's views.
use vstd::prelude::*;

use crate::model::entry::may_modify_entries;
use crate::model::user::{User, UserType};
use crate::auth::AuthMode;
use crate::text::{decimal, push_decimal};

verus! {

/// Whether the main page offers the form to add an entry: to writers and admins.
pub fn shows_entry_form(t: UserType) -> (b: bool)
    ensures
        b == may_modify_entries(t),
{
    match t {
        UserType::Writer | UserType::Admin => true,
        UserType::Reader | UserType::Inactive => false,
    }
}

/// Whether a row of the logbook offers the button that deletes the entry: to
/// admins only.
pub fn shows_delete_button(t: UserType) -> (b: bool)
    ensures
        b == (t == UserType::Admin),
{
    match t {
        UserType::Admin => true,
        _ => false,
    }
}

/// How an input field marks its content: the value of its `aria-invalid`
/// attribute and the message shown under it.
pub struct InputFeedback {
    pub invalid: &'static str,
    pub message: String,
}

/// The marking of an input field after its content was checked: valid content
/// is marked `false` with no message; invalid content is marked `true` with the
/// field's error message.
pub fn input_feedback(valid: bool, error_msg: &str) -> (f: InputFeedback)
    ensures
        valid ==> f.invalid@ == "false"@ && f.message@ == Seq::<char>::empty(),
        !valid ==> f.invalid@ == "true"@ && f.message@ == error_msg@,
{
    if valid {
        InputFeedback { invalid: "false", message: String::new() }
    } else {
        InputFeedback { invalid: "true", message: String::from_str(error_msg) }
    }
}

/// The line in the navigation bar that says who is logged in.
pub fn login_status_label(user: Option<&User>) -> (s: String)
    ensures
        match user {
            Some(u) => s@ == "Ingelogd als "@ + u.name@,
            None => s@ == "Niet ingelogd"@,
        },
{
    match user {
        Some(u) => {
            let mut s = String::from_str("Ingelogd als ");
            s.append(u.name.as_str());
            s
        },
        None => String::from_str("Niet ingelogd"),
    }
}

/// Whether the site offers the login and registration links and the logout
/// button: only with local accounts; under Authelia the proxy manages them.
pub fn shows_account_links(mode: AuthMode) -> (b: bool)
    ensures
        b == (mode == AuthMode::Local),
{
    match mode {
        AuthMode::Local => true,
        AuthMode::Authelia => false,
    }
}

/// The count above the table of entries, such as `3 resultaten`.
pub fn results_label(count: usize) -> (s: String)
    ensures
        s@ == decimal(count as nat) + " resultaten"@,
{
    let mut s = String::new();
    push_decimal(&mut s, count as u64);
    s.append(" resultaten");
    s
}

/// What a table shows when loading failed: the server's message when the server
/// sent one, else the table's own fallback text.
pub open spec fn error_text(server_message: Option<&str>, fallback: Seq<char>) -> Seq<char> {
    match server_message {
        Some(m) => m@,
        None => fallback,
    }
}

/// What the table of entries shows when loading it failed.
pub fn entries_error_text(server_message: Option<&str>) -> (s: String)
    ensures
        s@ == error_text(server_message, "Server error"@),
{
    match server_message {
        Some(m) => String::from_str(m),
        None => String::from_str("Server error"),
    }
}

/// What the leaderboard shows when loading it failed.
pub fn leaderboard_error_text(server_message: Option<&str>) -> (s: String)
    ensures
        s@ == error_text(server_message, "Error loading leaderboard"@),
{
    match server_message {
        Some(m) => String::from_str(m),
        None => String::from_str("Error loading leaderboard"),
    }
}

/// The link from a name on the leaderboard to the entries that mention it.
pub fn search_link(name: &str) -> (s: String)
    ensures
        s@ == "/?search="@ + name@,
{
    let mut s = String::from_str("/?search=");
    s.append(name);
    s
}

} // verus!
