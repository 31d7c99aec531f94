//! Logbook entries: who opened a beer, how, and when.
use vstd::prelude::*;

use crate::model::user::{
    has_name, prepare_username, prepared_username, type_code, unregistered_account, SqlUser,
    UnregisteredRow, UserType,
};
use crate::model::Error;
use crate::text::{
    is_ascii_letter, char_is_alphabetic, char_is_whitespace, chars_of, is_alphabetic_char, is_whitespace_char,
    padded_decimal, push_padded_decimal, split_on, split_seq, string_push, trimmed,
};

verus! {

/// The character that separates the names of the people who share an entry.
pub const WHO_DELIMITER: char = '+';

/// A moment in time, to the second, without a time zone.
#[derive(Clone, Copy, Debug, PartialEq, Eq, Structural)]
pub struct Timestamp {
    pub year: i32,
    pub month: u32,
    pub day: u32,
    pub hour: u32,
    pub minute: u32,
    pub second: u32,
}

/// Whether `year` is a leap year of the Gregorian calendar (extended to all years).
pub open spec fn is_leap_year(year: int) -> bool {
    year % 4 == 0 && (year % 100 != 0 || year % 400 == 0)
}

/// The number of days of a month (1 to 12) of a year.
pub open spec fn days_in_month(year: int, month: int) -> int {
    if month == 2 {
        if is_leap_year(year) {
            29
        } else {
            28
        }
    } else if month == 4 || month == 6 || month == 9 || month == 11 {
        30
    } else {
        31
    }
}

/// Whether a timestamp names a real moment: a month from 1 to 12, a day that the
/// month has, an hour below 24 and a minute and second below 60.
pub open spec fn valid_timestamp(t: Timestamp) -> bool {
    &&& 1 <= t.month <= 12
    &&& 1 <= t.day <= days_in_month(t.year as int, t.month as int)
    &&& t.hour < 24
    &&& t.minute < 60
    &&& t.second < 60
}

impl Timestamp {
    /// Whether this timestamp names a real moment.
    pub fn is_valid(&self) -> (b: bool)
        ensures
            b == valid_timestamp(*self),
    {
        if self.month < 1 || self.month > 12 || self.day < 1 || self.hour >= 24 || self.minute >= 60
            || self.second >= 60 {
            return false;
        }
        let year = self.year as i64;
        let leap = year % 4 == 0 && (year % 100 != 0 || year % 400 == 0);
        assert(leap == is_leap_year(year as int));
        let days: u32 = if self.month == 2 {
            if leap {
                29
            } else {
                28
            }
        } else if self.month == 4 || self.month == 6 || self.month == 9 || self.month == 11 {
            30
        } else {
            31
        };
        self.day <= days
    }
}

/// One entry of the logbook.
#[derive(Clone, Debug)]
pub struct Entry {
    pub id: i64,
    pub how: String,
    pub who: String,
    pub created: Timestamp,
}

/// A character allowed in the `who` field: a letter, whitespace, or the delimiter.
pub open spec fn who_char_accepted(c: char) -> bool {
    is_alphabetic_char(c) || is_whitespace_char(c) || c == WHO_DELIMITER
}

/// Whether a `who` field is accepted: all of its characters are allowed.
pub open spec fn who_accepted(who: Seq<char>) -> bool {
    forall|i: int| 0 <= i < who.len() ==> who_char_accepted(#[trigger] who[i])
}

/// Whether the `who` field of an entry holds only letters, whitespace and `+`.
pub fn validate_who(who: &str) -> (b: bool)
    ensures
        b == who_accepted(who@),
        b ==> forall|i: int|
            0 <= i < who@.len() && (who@[i] as u32) < 128 ==> (is_ascii_letter(#[trigger] who@[i])
                || is_whitespace_char(who@[i]) || who@[i] == '+'),
{
    let chars = chars_of(who);
    let mut i: usize = 0;
    while i < chars.len()
        invariant
            0 <= i <= chars@.len(),
            chars@ == who@,
            forall|k: int| 0 <= k < i ==> who_char_accepted(#[trigger] chars@[k]),
            forall|k: int|
                0 <= k < i && (chars@[k] as u32) < 128 ==> (is_ascii_letter(#[trigger] chars@[k])
                    || is_whitespace_char(chars@[k]) || chars@[k] == '+'),
        decreases chars@.len() - i,
    {
        let c = chars[i];
        let alphabetic = char_is_alphabetic(c);
        let whitespace = char_is_whitespace(c);
        let ok = alphabetic || whitespace || c == WHO_DELIMITER;
        if !ok {
            return false;
        }
        i = i + 1;
    }
    true
}

/// The names written in a `who` field, split at the delimiter.
pub open spec fn who_names(who: Seq<char>) -> Seq<Seq<char>> {
    split_seq(who, WHO_DELIMITER)
}

/// Whether every name of a `who` field has something besides whitespace, so that
/// it can be put in its stored form.
pub open spec fn who_names_nonblank(who: Seq<char>) -> bool {
    forall|i: int| 0 <= i < who_names(who).len() ==> trimmed(#[trigger] who_names(who)[i]).len() > 0
}

/// The authors an accepted `who` field names, in the stored form of their
/// usernames and in order; a `who` field that is not accepted is refused with
/// `Error::InvalidInput`.
pub open spec fn authors_outcome(who: Seq<char>, r: Result<Vec<String>, Error>) -> bool {
    &&& !who_accepted(who) ==> (r matches Err(e) && e == Error::InvalidInput)
    &&& who_accepted(who) ==> (r matches Ok(names) && names.len() == who_names(who).len()
        && forall|i: int| 0 <= i < names.len() ==>
            #[trigger] names[i]@ == prepared_username(who_names(who)[i]))
}

/// The authors of a new entry, in the stored form of their usernames, in the
/// order the `who` field names them; a `who` field that is not accepted is
/// refused with `Error::InvalidInput`. Every name of an accepted field must hold
/// more than whitespace.
pub fn entry_authors(who: &str) -> (r: Result<Vec<String>, Error>)
    requires
        who_accepted(who@) ==> who_names_nonblank(who@),
    ensures
        authors_outcome(who@, r),
{
    if !validate_who(who) {
        return Err(Error::InvalidInput);
    }
    let pieces = split_on(who, WHO_DELIMITER);
    let ghost views = pieces.deep_view();
    assert(views.len() == pieces.len());
    let mut names: Vec<String> = Vec::new();
    let mut i: usize = 0;
    while i < pieces.len()
        invariant
            0 <= i <= pieces@.len(),
            views == pieces.deep_view(),
            views == who_names(who@),
            who_names_nonblank(who@),
            names.len() == i,
            forall|k: int| 0 <= k < i ==> #[trigger] names[k]@ == prepared_username(views[k]),
        decreases pieces@.len() - i,
    {
        assert(views[i as int] == pieces[i as int]@);
        let name = prepare_username(pieces[i].as_str());
        names.push(name);
        i = i + 1;
    }
    Ok(names)
}

/// Whether a role may add and delete entries: writers and admins may.
pub open spec fn may_modify_entries(t: UserType) -> bool {
    t == UserType::Writer || t == UserType::Admin
}

/// Refuses adding or deleting an entry to readers and inactive users.
pub fn require_writer(t: UserType) -> (r: Result<(), Error>)
    ensures
        r is Ok <==> may_modify_entries(t),
        r matches Err(e) ==> e == Error::NoPermission,
{
    match t {
        UserType::Reader | UserType::Inactive => Err(Error::NoPermission),
        UserType::Admin | UserType::Writer => Ok(()),
    }
}

/// What adding an entry comes to for a user of the given role: a reader or an
/// inactive user is refused with `Error::NoPermission`; for a writer or an admin
/// it is exactly what creating the entry comes to.
pub open spec fn add_entry_outcome(t: UserType, who: Seq<char>, r: Result<Vec<String>, Error>) -> bool {
    if may_modify_entries(t) {
        authors_outcome(who, r)
    } else {
        r matches Err(e) && e == Error::NoPermission
    }
}

/// The authors of an entry that a user of the given role adds: the permission is
/// checked first, then the `who` field as `entry_authors` checks it. Every name
/// of an accepted field must hold more than whitespace.
pub fn add_entry_authors(t: UserType, who: &str) -> (r: Result<Vec<String>, Error>)
    requires
        may_modify_entries(t) && who_accepted(who@) ==> who_names_nonblank(who@),
    ensures
        add_entry_outcome(t, who@, r),
{
    match require_writer(t) {
        Err(e) => Err(e),
        Ok(()) => entry_authors(who),
    }
}

/// Like `add_entry_authors`, for any input: `None` where a permitted user names
/// an author with nothing but whitespace, which has no stored form.
pub fn try_add_entry_authors(t: UserType, who: &str) -> (r: Option<Result<Vec<String>, Error>>)
    ensures
        r is None <==> (may_modify_entries(t) && who_accepted(who@) && !who_names_nonblank(who@)),
        r matches Some(outcome) ==> add_entry_outcome(t, who@, outcome),
{
    match require_writer(t) {
        Err(e) => Some(Err(e)),
        Ok(()) => try_entry_authors(who),
    }
}

/// The `LIKE` pattern that finds the entries whose `how` contains `query`.
pub fn search_pattern(query: &str) -> (p: String)
    ensures
        p@ == seq!['%'] + query@ + seq!['%'],
{
    let mut p = String::new();
    string_push(&mut p, '%');
    p.append(query);
    string_push(&mut p, '%');
    p
}

/// The text that separates the authors of an entry when they are listed: the
/// delimiter with a space on either side.
pub fn author_separator() -> (s: String)
    ensures
        s@ == seq![' ', WHO_DELIMITER, ' '],
{
    let mut s = String::new();
    string_push(&mut s, ' ');
    string_push(&mut s, WHO_DELIMITER);
    string_push(&mut s, ' ');
    s
}

/// A date as the logbook shows it: day and month in two digits and the year in
/// four, separated by `-`, such as `07-03-2024`.
pub open spec fn date_label(t: Timestamp) -> Seq<char> {
    padded_decimal(t.day as int, 2) + seq!['-'] + padded_decimal(t.month as int, 2) + seq!['-']
        + padded_decimal(t.year as int, 4)
}

impl Entry {
    /// The day this entry was made, as the logbook shows it.
    pub fn date_label(&self) -> (s: String)
        ensures
            s@ == date_label(self.created),
    {
        let mut s = String::new();
        push_padded_decimal(&mut s, self.created.day as i64, 2);
        string_push(&mut s, '-');
        push_padded_decimal(&mut s, self.created.month as i64, 2);
        string_push(&mut s, '-');
        push_padded_decimal(&mut s, self.created.year as i64, 4);
        s
    }
}

/// Whether every name of a `who` field holds more than whitespace.
pub fn who_names_have_text(who: &str) -> (b: bool)
    ensures
        b == who_names_nonblank(who@),
{
    let pieces = split_on(who, WHO_DELIMITER);
    let ghost views = pieces.deep_view();
    let mut i: usize = 0;
    while i < pieces.len()
        invariant
            0 <= i <= pieces@.len(),
            views == pieces.deep_view(),
            views == who_names(who@),
            forall|k: int| 0 <= k < i ==> trimmed(#[trigger] views[k]).len() > 0,
        decreases pieces@.len() - i,
    {
        assert(views[i as int] == pieces[i as int]@);
        if !has_name(pieces[i].as_str()) {
            return false;
        }
        i = i + 1;
    }
    true
}

/// Like `entry_authors`, for any input: `None` for an accepted `who` field with a
/// name that holds nothing but whitespace, which has no stored form.
pub fn try_entry_authors(who: &str) -> (r: Option<Result<Vec<String>, Error>>)
    ensures
        r is None <==> (who_accepted(who@) && !who_names_nonblank(who@)),
        r matches Some(outcome) ==> authors_outcome(who@, outcome),
{
    if validate_who(who) && !who_names_have_text(who) {
        None
    } else {
        Some(entry_authors(who))
    }
}

/// How one author of a new entry is found.
pub enum AuthorStep {
    /// The name belongs to a stored user, who becomes an author.
    Existing { user_id: i64 },
    /// Nobody has the name: an inactive account is created for it first.
    CreateInactive(UnregisteredRow),
}

/// What becomes of an author name of a new entry, given the user stored under
/// it, if any: a stored user is taken as is; an unknown name gets an inactive
/// account with an empty password.
pub fn author_step(found: Option<&SqlUser>, username: String) -> (r: AuthorStep)
    ensures
        match found {
            Some(row) => r matches AuthorStep::Existing { user_id } && user_id == row.id,
            None => r matches AuthorStep::CreateInactive(account) && account.username == username
                && account.password@ == Seq::<char>::empty() && account.user_type == type_code(
                UserType::Inactive,
            ),
        },
{
    match found {
        Some(row) => AuthorStep::Existing { user_id: row.id },
        None => AuthorStep::CreateInactive(unregistered_account(username, UserType::Inactive)),
    }
}

} // verus!
