//! Authelia trusted-header authentication: the identity an upstream reverse
//! proxy forwards, and the role that follows from its group membership.
//!
//! This is only safe when the app is not directly reachable and the reverse
//! proxy strips client-supplied `Remote-*` headers.
use vstd::prelude::*;

use crate::model::user::{
    has_name, prepare_username, prepared_username, type_code, type_from_code, unregistered_account,
    SqlUser, UnregisteredRow, User, UserType,
};
use crate::model::Error;
use crate::text::{split_on, split_seq, trim, trimmed};

verus! {

/// The header that names the authenticated user.
pub const HEADER_USER: &'static str = "remote-user";
/// The header that lists the user's groups, separated by commas.
pub const HEADER_GROUPS: &'static str = "remote-groups";
/// The header with the user's display name.
pub const HEADER_NAME: &'static str = "remote-name";
/// The header with the user's email address.
pub const HEADER_EMAIL: &'static str = "remote-email";

/// The group that makes a user an admin, unless configured otherwise.
pub const DEFAULT_GROUP_ADMIN: &'static str = "loodsenboekje-admin";
/// The group that makes a user a writer, unless configured otherwise.
pub const DEFAULT_GROUP_WRITER: &'static str = "loodsenboekje-writer";
/// The group that makes a user a reader, unless configured otherwise.
pub const DEFAULT_GROUP_READER: &'static str = "loodsenboekje-reader";

/// The identity headers of one request, as the proxy forwarded them.
#[derive(Clone, Debug)]
pub struct AutheliaHeaders {
    pub user: Option<String>,
    pub groups: Vec<String>,
    pub name: Option<String>,
    pub email: Option<String>,
}

/// The view of an optional text.
pub open spec fn opt_text(v: Option<&str>) -> Option<Seq<char>> {
    match v {
        Some(s) => Some(s@),
        None => None,
    }
}

/// The view of an optional owned text.
pub open spec fn opt_string(v: Option<String>) -> Option<Seq<char>> {
    match v {
        Some(s) => Some(s@),
        None => None,
    }
}

/// A header value that is present and not empty; an empty one counts as absent.
pub open spec fn nonempty_value(v: Option<Seq<char>>) -> Option<Seq<char>> {
    match v {
        Some(s) => if s.len() > 0 {
            Some(s)
        } else {
            None
        },
        None => None,
    }
}

/// The texts of `items` that are not empty, in order.
pub open spec fn drop_empty(items: Seq<Seq<char>>) -> Seq<Seq<char>>
    decreases items.len(),
{
    if items.len() == 0 {
        Seq::<Seq<char>>::empty()
    } else {
        let rest = drop_empty(items.drop_last());
        if items.last().len() > 0 {
            rest.push(items.last())
        } else {
            rest
        }
    }
}

/// The groups a `Remote-Groups` value lists: split at commas, each trimmed, the
/// empty ones left out. An absent header lists no group.
pub open spec fn parse_groups(v: Option<Seq<char>>) -> Seq<Seq<char>> {
    let text = match v {
        Some(s) => s,
        None => Seq::<char>::empty(),
    };
    drop_empty(split_seq(text, ',').map_values(|g: Seq<char>| trimmed(g)))
}

/// A header value as an owned text, kept only when it is not empty.
fn nonempty_owned(v: Option<&str>) -> (r: Option<String>)
    ensures
        opt_string(r) == nonempty_value(opt_text(v)),
{
    match v {
        Some(s) => {
            if s.is_empty() {
                None
            } else {
                Some(String::from_str(s))
            }
        },
        None => None,
    }
}

/// The groups listed in a `Remote-Groups` value.
pub fn parse_group_list(v: Option<&str>) -> (groups: Vec<String>)
    ensures
        groups.deep_view() == parse_groups(opt_text(v)),
{
    let text = match v {
        Some(s) => s,
        None => "",
    };
    proof {
        reveal_strlit("");
    }
    let pieces = split_on(text, ',');
    let ghost trimmed_pieces = pieces.deep_view().map_values(|g: Seq<char>| trimmed(g));
    let mut groups: Vec<String> = Vec::new();
    let mut i: usize = 0;
    assert(trimmed_pieces.take(0) == Seq::<Seq<char>>::empty());
    while i < pieces.len()
        invariant
            0 <= i <= pieces@.len(),
            trimmed_pieces == pieces.deep_view().map_values(|g: Seq<char>| trimmed(g)),
            trimmed_pieces.len() == pieces@.len(),
            groups.deep_view() == drop_empty(trimmed_pieces.take(i as int)),
        decreases pieces@.len() - i,
    {
        let g = trim(pieces[i].as_str());
        assert(g@ == trimmed_pieces[i as int]);
        assert(trimmed_pieces.take(i + 1).drop_last() == trimmed_pieces.take(i as int));
        if !g.as_str().is_empty() {
            groups.push(g);
        }
        assert(groups.deep_view() == drop_empty(trimmed_pieces.take(i + 1)));
        i = i + 1;
    }
    assert(trimmed_pieces.take(pieces@.len() as int) == trimmed_pieces);
    groups
}

impl AutheliaHeaders {
    /// Reads the identity headers from their raw values (`None` for a header that
    /// is absent or not valid text): empty values count as absent, and the groups
    /// are split at commas, trimmed, and the empty ones dropped.
    pub fn from_header_values(
        user: Option<&str>,
        groups: Option<&str>,
        name: Option<&str>,
        email: Option<&str>,
    ) -> (h: AutheliaHeaders)
        ensures
            opt_string(h.user) == nonempty_value(opt_text(user)),
            h.groups.deep_view() == parse_groups(opt_text(groups)),
            opt_string(h.name) == nonempty_value(opt_text(name)),
            opt_string(h.email) == nonempty_value(opt_text(email)),
    {
        AutheliaHeaders {
            user: nonempty_owned(user),
            groups: parse_group_list(groups),
            name: nonempty_owned(name),
            email: nonempty_owned(email),
        }
    }
}

/// The names of the groups that grant each role.
pub struct GroupNames {
    pub admin: String,
    pub writer: String,
    pub reader: String,
}

/// A configured group name, or the default when none is configured.
pub open spec fn setting_or(value: Option<String>, default: Seq<char>) -> Seq<char> {
    match value {
        Some(s) => s@,
        None => default,
    }
}

/// A configured value, or a copy of the default.
fn text_or(value: Option<String>, default: &str) -> (r: String)
    ensures
        r@ == setting_or(value, default@),
{
    match value {
        Some(s) => s,
        None => String::from_str(default),
    }
}

impl GroupNames {
    /// The group names from the settings `AUTHELIA_GROUP_ADMIN`,
    /// `AUTHELIA_GROUP_WRITER` and `AUTHELIA_GROUP_READER`, each falling back to
    /// its default when it is not set.
    pub fn from_settings(admin: Option<String>, writer: Option<String>, reader: Option<String>) -> (g: GroupNames)
        ensures
            g.admin@ == setting_or(admin, DEFAULT_GROUP_ADMIN@),
            g.writer@ == setting_or(writer, DEFAULT_GROUP_WRITER@),
            g.reader@ == setting_or(reader, DEFAULT_GROUP_READER@),
    {
        GroupNames {
            admin: text_or(admin, DEFAULT_GROUP_ADMIN),
            writer: text_or(writer, DEFAULT_GROUP_WRITER),
            reader: text_or(reader, DEFAULT_GROUP_READER),
        }
    }
}

/// The role a user's groups grant: the most trusted role any of the groups
/// grants, and no rights at all when none does.
pub open spec fn group_role(groups: Seq<Seq<char>>, names: GroupNames) -> UserType {
    if groups.contains(names.admin@) {
        UserType::Admin
    } else if groups.contains(names.writer@) {
        UserType::Writer
    } else if groups.contains(names.reader@) {
        UserType::Reader
    } else {
        UserType::Inactive
    }
}

/// Whether one of `groups` is `name`.
fn has_group(groups: &Vec<String>, name: &String) -> (b: bool)
    ensures
        b == groups.deep_view().contains(name@),
{
    let ghost views = groups.deep_view();
    let mut i: usize = 0;
    while i < groups.len()
        invariant
            0 <= i <= groups@.len(),
            views == groups.deep_view(),
            views.len() == groups@.len(),
            forall|k: int| 0 <= k < i ==> views[k] != name@,
        decreases groups@.len() - i,
    {
        assert(views[i as int] == groups@[i as int]@);
        if groups[i] == *name {
            assert(views[i as int] == name@);
            return true;
        }
        i = i + 1;
    }
    assert(!views.contains(name@));
    false
}

/// The role a user's groups grant; the most trusted one wins.
pub fn map_groups_to_user_type(groups: &Vec<String>, names: &GroupNames) -> (t: UserType)
    ensures
        t == group_role(groups.deep_view(), *names),
        groups.deep_view().contains(names.admin@) ==> t == UserType::Admin,
        !groups.deep_view().contains(names.admin@) && groups.deep_view().contains(names.writer@)
            ==> t == UserType::Writer,
        !groups.deep_view().contains(names.admin@) && !groups.deep_view().contains(names.writer@)
            && groups.deep_view().contains(names.reader@) ==> t == UserType::Reader,
        !groups.deep_view().contains(names.admin@) && !groups.deep_view().contains(names.writer@)
            && !groups.deep_view().contains(names.reader@) ==> t == UserType::Inactive,
{
    if has_group(groups, &names.admin) {
        UserType::Admin
    } else if has_group(groups, &names.writer) {
        UserType::Writer
    } else if has_group(groups, &names.reader) {
        UserType::Reader
    } else {
        UserType::Inactive
    }
}

/// What `requested_identity` answers: not logged in without a user; otherwise the
/// stored form of the name and the role the groups grant.
pub open spec fn identity_outcome(headers: AutheliaHeaders, names: GroupNames, r: Result<(String, UserType), Error>) -> bool {
    match headers.user {
        None => r matches Err(e) && e == Error::NotLoggedIn,
        Some(u) => r matches Ok((name, t)) && name@ == prepared_username(u@) && t == group_role(
            headers.groups.deep_view(),
            names,
        ),
    }
}

/// Who a request claims to be: the stored form of the `Remote-User` name and the
/// role its groups grant. A request without a user is not logged in. The user
/// name, when present, must hold more than whitespace.
pub fn requested_identity(headers: &AutheliaHeaders, names: &GroupNames) -> (r: Result<(String, UserType), Error>)
    requires
        headers.user matches Some(u) ==> trimmed(u@).len() > 0,
    ensures
        identity_outcome(*headers, *names, r),
{
    match &headers.user {
        None => Err(Error::NotLoggedIn),
        Some(raw) => {
            let name = prepare_username(raw.as_str());
            let t = map_groups_to_user_type(&headers.groups, names);
            Ok((name, t))
        },
    }
}

/// The role number to write over a stored one so that it stands for `t`: none
/// when it already does.
pub open spec fn role_update(stored: i64, t: UserType) -> Option<i64> {
    if stored != type_code(t) {
        Some(type_code(t))
    } else {
        None
    }
}

/// The role number a row holds once an update, if any, has been written.
pub open spec fn after_update(stored: i64, update: Option<i64>) -> i64 {
    match update {
        Some(code) => code,
        None => stored,
    }
}

/// Like `requested_identity`, for any headers: `None` when the user name holds
/// nothing but whitespace, which has no stored form.
pub fn try_requested_identity(headers: &AutheliaHeaders, names: &GroupNames) -> (r: Option<Result<(String, UserType), Error>>)
    ensures
        r is None <==> (headers.user matches Some(u) && trimmed(u@).len() == 0),
        r matches Some(outcome) ==> identity_outcome(*headers, *names, outcome),
{
    match &headers.user {
        Some(raw) => {
            if !has_name(raw.as_str()) {
                return None;
            }
        },
        None => {},
    }
    Some(requested_identity(headers, names))
}

/// What becomes of a stored user whose groups grant a role.
pub struct Reconciled {
    /// The role number to write to the row, when the stored one differs.
    pub update: Option<i64>,
    /// The user the request runs as.
    pub user: User,
}

/// Brings a stored user in line with the role their groups grant now: the
/// stored role is rewritten when it differs, and the request runs as the stored
/// user with the new role.
pub fn reconcile_existing(row: SqlUser, t: UserType) -> (r: Reconciled)
    ensures
        r.update == role_update(row.user_type, t),
        r.user == (User { id: row.id, name: row.username, user_type: t }),
{
    let desired = t.to_code();
    let update = if row.user_type != desired {
        Some(desired)
    } else {
        None
    };
    Reconciled { update, user: User { id: row.id, name: row.username, user_type: t } }
}

/// What a request under Authelia does to the `users` table.
pub enum ResolveStep {
    /// The user is stored: their role is brought in line.
    Existing(Reconciled),
    /// The user is not stored: a row is provisioned with an empty password and
    /// the role their groups grant.
    Provision(UnregisteredRow),
}

/// What a request under Authelia does, given the user stored under the
/// requested name, if any.
pub fn resolve_step(found: Option<SqlUser>, username: String, t: UserType) -> (r: ResolveStep)
    ensures
        match found {
            Some(row) => r matches ResolveStep::Existing(rec) && rec.update == role_update(
                row.user_type,
                t,
            ) && rec.user == (User { id: row.id, name: row.username, user_type: t }),
            None => r matches ResolveStep::Provision(account) && account.username == username
                && account.password@ == Seq::<char>::empty() && account.user_type == type_code(t),
        },
{
    match found {
        Some(row) => ResolveStep::Existing(reconcile_existing(row, t)),
        None => ResolveStep::Provision(unregistered_account(username, t)),
    }
}

/// The user a provisioned row stands for, once the database has given it an id.
pub fn provisioned_user(id: i64, account: UnregisteredRow) -> (u: User)
    ensures
        u == (User { id, name: account.username, user_type: type_from_code(account.user_type) }),
{
    User { id, name: account.username, user_type: UserType::from_code(account.user_type) }
}

impl Default for AutheliaHeaders {
    /// Headers that name nobody: no user, no groups, no name, no email.
    fn default() -> (h: Self)
        ensures
            h.user is None,
            h.groups@.len() == 0,
            h.name is None,
            h.email is None,
    {
        AutheliaHeaders { user: None, groups: Vec::new(), name: None, email: None }
    }
}

} // verus!
