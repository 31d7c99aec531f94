//! Users: their roles, the rules on names and passwords, and registration.
use vstd::prelude::*;
use vstd::utf8::{char_is_scalar, encode_scalar, encode_utf8};

use crate::hashing::{bcrypt_verify_outcome, hash_password};
use crate::model::Error;
use crate::text::{
    ascii_lower, char_is_alphabetic, is_ascii_letter, is_whitespace_char, trim_end, trim_start, char_to_uppercase, chars_of, i64_to_string, is_alphabetic_char,
    signed_decimal, string_push, to_ascii_lowercase, trim, trimmed, uppercase_of,
};

verus! {

/// The least number of bytes a password must have.
pub const MIN_PASSWORD_LENGTH: usize = 8;

/// A password is accepted when its UTF-8 encoding is at least
/// `MIN_PASSWORD_LENGTH` bytes long.
pub open spec fn password_accepted(passwd: Seq<char>) -> bool {
    encode_utf8(passwd).len() >= MIN_PASSWORD_LENGTH
}

/// A username is accepted when every character of it is alphabetic.
pub open spec fn username_accepted(username: Seq<char>) -> bool {
    forall|i: int| 0 <= i < username.len() ==> is_alphabetic_char(#[trigger] username[i])
}

/// The stored form of a username: surrounding whitespace removed, ASCII letters
/// lowercased, then the first character replaced by its uppercase mapping.
pub open spec fn prepared_username(raw: Seq<char>) -> Seq<char> {
    let u = ascii_lower(trimmed(raw));
    uppercase_of(u[0]) + u.drop_first()
}

proof fn lemma_encode_concat_len(a: Seq<char>, b: Seq<char>)
    ensures
        encode_utf8(a + b).len() == encode_utf8(a).len() + encode_utf8(b).len(),
    decreases a.len(),
{
    if a.len() > 0 {
        assert((a + b).drop_first() == a.drop_first() + b);
        assert((a + b)[0] == a[0]);
        lemma_encode_concat_len(a.drop_first(), b);
    } else {
        assert(a + b == b);
    }
}

proof fn lemma_encode_single_len(c: char)
    ensures
        encode_utf8(seq![c]).len() == encode_scalar(c as u32).len(),
{
    let s = seq![c];
    assert(s.drop_first() == Seq::<char>::empty());
    assert(s[0] == c);
    assert(encode_utf8(s.drop_first()) == Seq::<u8>::empty());
    assert(encode_utf8(s) == encode_scalar(c as u32) + encode_utf8(s.drop_first()));
    assert(encode_scalar(c as u32) + Seq::<u8>::empty() == encode_scalar(c as u32));
}

/// The number of bytes in the UTF-8 encoding of `c`.
fn utf8_width(c: char) -> (w: usize)
    ensures
        w == encode_scalar(c as u32).len(),
        1 <= w <= 4,
{
    proof {
        char_is_scalar(c);
    }
    let v = c as u32;
    if v < 0x80 {
        1
    } else if v < 0x800 {
        2
    } else if v < 0x10000 {
        3
    } else {
        4
    }
}

/// Whether a password is long enough: whether it has at least
/// `MIN_PASSWORD_LENGTH` bytes.
pub fn validate_password(passwd: &str) -> (b: bool)
    ensures
        b == password_accepted(passwd@),
{
    let chars = chars_of(passwd);
    let mut bytes: usize = 0;
    let mut i: usize = 0;
    assert(chars@.take(0) == Seq::<char>::empty());
    while i < chars.len() && bytes < MIN_PASSWORD_LENGTH
        invariant
            0 <= i <= chars@.len(),
            chars@ == passwd@,
            bytes == encode_utf8(chars@.take(i as int)).len(),
            bytes < MIN_PASSWORD_LENGTH + 4,
        decreases chars@.len() - i,
    {
        let w = utf8_width(chars[i]);
        proof {
            assert(chars@.take(i + 1) == chars@.take(i as int) + seq![chars@[i as int]]);
            lemma_encode_concat_len(chars@.take(i as int), seq![chars@[i as int]]);
            lemma_encode_single_len(chars@[i as int]);
        }
        bytes = bytes + w;
        i = i + 1;
    }
    proof {
        assert(chars@ == chars@.take(i as int) + chars@.skip(i as int));
        lemma_encode_concat_len(chars@.take(i as int), chars@.skip(i as int));
        if i == chars@.len() {
            assert(chars@.take(i as int) == chars@);
        }
    }
    bytes >= MIN_PASSWORD_LENGTH
}

/// Whether a username consists of alphabetic characters only.
pub fn validate_username(username: &str) -> (b: bool)
    ensures
        b == username_accepted(username@),
        b ==> forall|i: int| 0 <= i < username@.len() ==> !is_whitespace_char(#[trigger] username@[i]),
        b ==> forall|i: int|
            0 <= i < username@.len() && (username@[i] as u32) < 128 ==> is_ascii_letter(
                #[trigger] username@[i],
            ),
{
    let chars = chars_of(username);
    let mut i: usize = 0;
    while i < chars.len()
        invariant
            0 <= i <= chars@.len(),
            chars@ == username@,
            forall|k: int| 0 <= k < i ==> is_alphabetic_char(#[trigger] chars@[k]),
            forall|k: int| 0 <= k < i ==> !is_whitespace_char(#[trigger] chars@[k]),
            forall|k: int| 0 <= k < i && (chars@[k] as u32) < 128 ==> is_ascii_letter(#[trigger] chars@[k]),
        decreases chars@.len() - i,
    {
        if !char_is_alphabetic(chars[i]) {
            return false;
        }
        i = i + 1;
    }
    true
}

/// Normalises a username into the form it is stored and looked up under.
/// The trimmed name must not be empty.
pub fn prepare_username(username: &str) -> (r: String)
    requires
        trimmed(username@).len() > 0,
    ensures
        r@ == prepared_username(username@),
{
    let t = trim(username);
    let u = to_ascii_lowercase(t.as_str());
    let chars = chars_of(u.as_str());
    let mut r = char_to_uppercase(chars[0]);
    let ghost head = r@;
    let mut i: usize = 1;
    while i < chars.len()
        invariant
            1 <= i <= chars@.len(),
            chars@.len() > 0,
            r@ == head + chars@.subrange(1, i as int),
        decreases chars@.len() - i,
    {
        string_push(&mut r, chars[i]);
        assert(chars@.subrange(1, i + 1) == chars@.subrange(1, i as int).push(chars@[i as int]));
        i = i + 1;
    }
    assert(chars@.subrange(1, chars@.len() as int) == chars@.drop_first());
    r
}

/// Whether a username holds more than whitespace, so that it has a stored form.
pub fn has_name(username: &str) -> (b: bool)
    ensures
        b == (trimmed(username@).len() > 0),
{
    let t = trim(username);
    !t.as_str().is_empty()
}

/// Like `prepare_username`, for any input: `None` for a name that holds nothing
/// but whitespace.
pub fn try_prepare_username(username: &str) -> (r: Option<String>)
    ensures
        trimmed(username@).len() == 0 ==> r is None,
        trimmed(username@).len() > 0 ==> (r matches Some(s) && s@ == prepared_username(username@)),
{
    if has_name(username) {
        Some(prepare_username(username))
    } else {
        None
    }
}

/// The role of a user, from least to most trusted: an `Inactive` user has no
/// rights, a `Reader` may read the logbook, a `Writer` may also add and remove
/// entries, and an `Admin` may do all of that.
#[derive(Clone, Copy, Debug, PartialEq, Eq, Structural)]
pub enum UserType {
    Reader,
    Writer,
    Admin,
    Inactive,
}

/// The number a role is stored under in the database.
pub open spec fn type_code(t: UserType) -> i64 {
    match t {
        UserType::Reader => 0,
        UserType::Writer => 1,
        UserType::Admin => 2,
        UserType::Inactive => 3,
    }
}

/// The role a stored number stands for; a number that stands for no role gives
/// the least trusted one.
pub open spec fn type_from_code(code: i64) -> UserType {
    if code == 0 {
        UserType::Reader
    } else if code == 1 {
        UserType::Writer
    } else if code == 2 {
        UserType::Admin
    } else {
        UserType::Inactive
    }
}

impl UserType {
    /// The number this role is stored under.
    pub fn to_code(self) -> (c: i64)
        ensures
            c == type_code(self),
    {
        match self {
            UserType::Reader => 0,
            UserType::Writer => 1,
            UserType::Admin => 2,
            UserType::Inactive => 3,
        }
    }

    /// The role a stored number stands for.
    pub fn from_code(code: i64) -> (t: UserType)
        ensures
            t == type_from_code(code),
    {
        match code {
            0 => UserType::Reader,
            1 => UserType::Writer,
            2 => UserType::Admin,
            _ => UserType::Inactive,
        }
    }
}

/// The rank of a role in the order of trust: inactive, reader, writer, admin.
pub open spec fn role_rank(t: UserType) -> int {
    match t {
        UserType::Inactive => 0,
        UserType::Reader => 1,
        UserType::Writer => 2,
        UserType::Admin => 3,
    }
}

/// A user as the rest of the site sees it.
#[derive(Clone, Debug)]
pub struct User {
    pub id: i64,
    pub name: String,
    pub user_type: UserType,
}

/// A row of the `users` table.
#[derive(Clone, Debug)]
pub struct SqlUser {
    pub id: i64,
    pub username: String,
    pub password: String,
    pub user_type: i64,
}

/// A user with the number of entries they took part in.
#[derive(Clone, Debug)]
pub struct UserAndCount {
    pub id: i64,
    pub name: String,
    pub count: i64,
}

/// How a user is written in messages: the name, then the id in parentheses.
pub open spec fn user_label(name: Seq<char>, id: i64) -> Seq<char> {
    name + seq![' ', '('] + signed_decimal(id as int) + seq![')']
}

impl User {
    /// The user as written in messages, such as `Anna (3)`.
    pub fn to_display_string(&self) -> (s: String)
        ensures
            s@ == user_label(self.name@, self.id),
    {
        let mut s = String::new();
        s.append(self.name.as_str());
        string_push(&mut s, ' ');
        string_push(&mut s, '(');
        let id = i64_to_string(self.id);
        s.append(id.as_str());
        string_push(&mut s, ')');
        s
    }
}

/// The user a database row describes.
pub open spec fn user_of_row(row: SqlUser) -> User {
    User { id: row.id, name: row.username, user_type: type_from_code(row.user_type) }
}

impl From<SqlUser> for User {
    fn from(row: SqlUser) -> (u: Self) {
        User { id: row.id, name: row.username, user_type: UserType::from_code(row.user_type) }
    }
}

impl vstd::std_specs::convert::FromSpecImpl<SqlUser> for User {
    open spec fn obeys_from_spec() -> bool {
        true
    }

    open spec fn from_spec(row: SqlUser) -> Self {
        user_of_row(row)
    }
}

/// The passwords that open registration: registering with one of them gives
/// the matching role.
pub struct RegistrationPasswords {
    pub read: String,
    pub write: String,
    pub admin: String,
}

/// The role a registration password grants; the passwords are tried in the
/// order read, write, admin, and one that matches none is refused.
pub open spec fn creation_role(creation_password: Seq<char>, passwords: RegistrationPasswords) -> Result<UserType, Error> {
    if creation_password == passwords.read@ {
        Ok(UserType::Reader)
    } else if creation_password == passwords.write@ {
        Ok(UserType::Writer)
    } else if creation_password == passwords.admin@ {
        Ok(UserType::Admin)
    } else {
        Err(Error::InvalidInput)
    }
}

/// Whether a registration is accepted, and with which role: the registration
/// password must grant a role, the username must be accepted, and so must the
/// password, checked in that order.
pub open spec fn registration_check(
    username: Seq<char>,
    password: Seq<char>,
    creation_password: Seq<char>,
    passwords: RegistrationPasswords,
) -> Result<UserType, Error> {
    match creation_role(creation_password, passwords) {
        Err(e) => Err(e),
        Ok(t) => if !username_accepted(username) {
            Err(Error::InvalidInput)
        } else if !password_accepted(password) {
            Err(Error::InvalidInput)
        } else {
            Ok(t)
        },
    }
}

/// The role a registration password grants.
pub fn registration_role(creation_password: &str, passwords: &RegistrationPasswords) -> (r: Result<UserType, Error>)
    ensures
        r == creation_role(creation_password@, *passwords),
{
    let given = String::from_str(creation_password);
    if given == passwords.read {
        Ok(UserType::Reader)
    } else if given == passwords.write {
        Ok(UserType::Writer)
    } else if given == passwords.admin {
        Ok(UserType::Admin)
    } else {
        Err(Error::InvalidInput)
    }
}

/// An account about to be written: its stored username, the bcrypt hash of its
/// password, and its role.
pub struct NewAccount {
    pub username: String,
    pub password_hash: String,
    pub user_type: UserType,
}

/// What holds of an account prepared for a registration with the given username,
/// password and granted role: it carries the stored form of the username, the
/// role, and a 60-character bcrypt hash that accepts the password.
pub open spec fn account_prepared(username: Seq<char>, password: Seq<char>, t: UserType, account: NewAccount) -> bool {
    &&& account.username@ == prepared_username(username)
    &&& account.user_type == t
    &&& account.password_hash@.len() == 60
    &&& bcrypt_verify_outcome(password, account.password_hash@) == Some(true)
}

/// What a registration with the given inputs comes to: the error of the first
/// failed check when it is refused; otherwise a prepared account, or
/// `Error::Hashing` when hashing the password failed.
pub open spec fn registration_outcome(
    username: Seq<char>,
    password: Seq<char>,
    creation_password: Seq<char>,
    passwords: RegistrationPasswords,
    r: Result<NewAccount, Error>,
) -> bool {
    match registration_check(username, password, creation_password, passwords) {
        Err(e) => r matches Err(f) && f == e,
        Ok(t) => match r {
            Ok(account) => account_prepared(username, password, t, account),
            Err(e) => e == Error::Hashing,
        },
    }
}

/// The account of an accepted registration, given the outcome of hashing its
/// password: the account when a hash was made, `Error::Hashing` when none was.
pub fn finish_registration(username: String, user_type: UserType, hash: Option<String>) -> (r: Result<NewAccount, Error>)
    ensures
        match hash {
            Some(h) => r == Ok::<NewAccount, Error>(NewAccount { username, password_hash: h, user_type }),
            None => r == Err::<NewAccount, Error>(Error::Hashing),
        },
{
    match hash {
        Some(h) => Ok(NewAccount { username, password_hash: h, user_type }),
        None => Err(Error::Hashing),
    }
}

/// A nonempty name without whitespace is its own trimmed form.
proof fn lemma_nonblank_name_is_trimmed(u: Seq<char>)
    requires
        u.len() > 0,
        forall|i: int| 0 <= i < u.len() ==> !is_whitespace_char(#[trigger] u[i]),
    ensures
        trimmed(u) == u,
        trimmed(u).len() > 0,
{
    assert(!is_whitespace_char(u[0]));
    assert(trim_start(u) == u);
    assert(!is_whitespace_char(u.last()));
    assert(trim_end(u) == u);
}

/// Checks a registration and prepares the account it asks for: the username in
/// its stored form, the password hashed with bcrypt, and the role the
/// registration password grants. A refused registration gives the error of the
/// first failed check; a failed hashing gives `Error::Hashing`. An accepted
/// registration must have a nonempty username.
pub fn prepare_registration(
    username: &str,
    password: &str,
    creation_password: &str,
    passwords: &RegistrationPasswords,
) -> (r: Result<NewAccount, Error>)
    requires
        registration_check(username@, password@, creation_password@, *passwords) is Ok
            ==> username@.len() > 0,
    ensures
        registration_outcome(username@, password@, creation_password@, *passwords, r),
{
    let user_type = match registration_role(creation_password, passwords) {
        Ok(t) => t,
        Err(e) => {
            return Err(e);
        },
    };
    if !validate_username(username) {
        return Err(Error::InvalidInput);
    }
    if !validate_password(password) {
        return Err(Error::InvalidInput);
    }
    proof {
        lemma_nonblank_name_is_trimmed(username@);
    }
    let name = prepare_username(username);
    let hash = hash_password(password);
    finish_registration(name, user_type, hash)
}

/// Like `prepare_registration`, for any input: `None` for an accepted
/// registration with an empty username, which has no stored form.
pub fn try_prepare_registration(
    username: &str,
    password: &str,
    creation_password: &str,
    passwords: &RegistrationPasswords,
) -> (r: Option<Result<NewAccount, Error>>)
    ensures
        r is None <==> (registration_check(username@, password@, creation_password@, *passwords) is Ok
            && username@.len() == 0),
        r matches Some(outcome) ==> registration_outcome(
            username@,
            password@,
            creation_password@,
            *passwords,
            outcome,
        ),
{
    let accepted = registration_role(creation_password, passwords).is_ok() && validate_username(username)
        && validate_password(password);
    if accepted && username.is_empty() {
        None
    } else {
        Some(prepare_registration(username, password, creation_password, passwords))
    }
}

/// How a registration is written to the `users` table.
#[derive(Clone, Copy, Debug, PartialEq, Eq, Structural)]
pub enum AccountWrite {
    /// No account has the name yet: insert a new row.
    Insert,
    /// An inactive account (one created by being named in an entry) has the
    /// name: give it the password and role of the registration.
    Activate { id: i64 },
}

/// What a registration writes, given the account already stored under the
/// name, if any: a new row when there is none, the activation of an inactive
/// account, and a refusal when an active account has the name.
pub fn registration_write(existing: Option<&SqlUser>) -> (r: Result<AccountWrite, Error>)
    ensures
        match existing {
            None => r == Ok::<AccountWrite, Error>(AccountWrite::Insert),
            Some(row) => if row.user_type == type_code(UserType::Inactive) {
                r == Ok::<AccountWrite, Error>(AccountWrite::Activate { id: row.id })
            } else {
                r == Err::<AccountWrite, Error>(Error::InvalidInput)
            },
        },
{
    match existing {
        None => Ok(AccountWrite::Insert),
        Some(row) => {
            if row.user_type == UserType::Inactive.to_code() {
                Ok(AccountWrite::Activate { id: row.id })
            } else {
                Err(Error::InvalidInput)
            }
        },
    }
}

/// Whether a role may see the list of users and the leaderboard: everyone but
/// an inactive user may.
pub open spec fn may_view_users(t: UserType) -> bool {
    t != UserType::Inactive
}

/// Refuses the list of users and the leaderboard to an inactive user.
pub fn require_active(t: UserType) -> (r: Result<(), Error>)
    ensures
        r is Ok <==> may_view_users(t),
        r matches Err(e) ==> e == Error::NoPermission,
{
    match t {
        UserType::Inactive => Err(Error::NoPermission),
        _ => Ok(()),
    }
}

/// Whether the logged-in user may delete the account with the given id. The
/// rule the site applies admits every logged-in user, for every account.
pub fn delete_permission(actor: &User, id: i64) -> (r: Result<(), Error>)
    ensures
        r is Ok,
{
    Ok(())
}

/// A row for an account that nobody registered: one created for a name written
/// in an entry, or provisioned for an Authelia user.
pub struct UnregisteredRow {
    pub username: String,
    pub password: String,
    pub user_type: i64,
}

/// The row of an account nobody registered: the name, an empty password (so
/// that no local login can succeed with it), and the number of the role.
pub fn unregistered_account(username: String, t: UserType) -> (r: UnregisteredRow)
    ensures
        r.username == username,
        r.password@ == Seq::<char>::empty(),
        r.user_type == type_code(t),
{
    UnregisteredRow { username, password: String::new(), user_type: t.to_code() }
}

} // verus!
