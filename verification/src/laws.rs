//! Properties that hold across the functions of the library.
use vstd::prelude::*;

use crate::auth::authelia::{after_update, drop_empty, group_role, parse_groups, role_update, GroupNames};
use crate::auth::login_result;
use crate::hashing::bcrypt_verify_outcome;
use crate::model::entry::{
    add_entry_outcome, authors_outcome, may_modify_entries, who_accepted, who_char_accepted,
};
use crate::model::user::{
    account_prepared, may_view_users, registration_check, role_rank, type_code, type_from_code,
    username_accepted, NewAccount, RegistrationPasswords, SqlUser, User, UserType,
};
use crate::model::Error;
use crate::model::entry::{days_in_month, valid_timestamp, Timestamp};
use crate::text::{
    decimal, digit_char, is_alphabetic_char, is_whitespace_char, join_seq, split_seq, trim_end,
    trim_start, trimmed,
};
use vstd::utf8::encode_utf8;

verus! {

/// A role written to the database as its number reads back as the same role.
pub proof fn stored_role_reads_back(t: UserType)
    ensures
        type_from_code(type_code(t)) == t,
{
}

/// An account that a registration prepared can log in with the password it was
/// registered with: the row written for it (inserted, or an inactive row
/// activated, under whatever id) passes the login check as the user with the
/// registered name and role.
pub proof fn registered_account_logs_in(
    username: Seq<char>,
    password: Seq<char>,
    creation_password: Seq<char>,
    passwords: RegistrationPasswords,
    account: NewAccount,
    id: i64,
)
    requires
        registration_check(username, password, creation_password, passwords) matches Ok(t)
            && account_prepared(username, password, t, account),
    ensures
        login_result(
            SqlUser {
                id,
                username: account.username,
                password: account.password_hash,
                user_type: type_code(account.user_type),
            },
            bcrypt_verify_outcome(password, account.password_hash@),
        ) == Ok::<User, Error>(User { id, name: account.username, user_type: account.user_type }),
{
}

/// Under Authelia, the role stored for a user after a request is the role their
/// groups grant, it reads back as that role, and a second request with the same
/// groups writes nothing.
pub proof fn reconciled_role_settles(stored: i64, t: UserType)
    ensures
        after_update(stored, role_update(stored, t)) == type_code(t),
        type_from_code(after_update(stored, role_update(stored, t))) == t,
        role_update(after_update(stored, role_update(stored, t)), t) is None,
{
}

/// Being in more groups never lowers a user's role.
pub proof fn more_groups_never_lower_role(fewer: Seq<Seq<char>>, more: Seq<Seq<char>>, names: GroupNames)
    requires
        forall|g: Seq<char>| fewer.contains(g) ==> more.contains(g),
    ensures
        role_rank(group_role(fewer, names)) <= role_rank(group_role(more, names)),
{
    if fewer.contains(names.admin@) {
        assert(more.contains(names.admin@));
    } else if fewer.contains(names.writer@) {
        assert(more.contains(names.writer@));
    } else if fewer.contains(names.reader@) {
        assert(more.contains(names.reader@));
    }
}

/// A more trusted role has every right a less trusted one has.
pub proof fn rights_grow_with_rank(lower: UserType, higher: UserType)
    requires
        role_rank(lower) <= role_rank(higher),
    ensures
        may_view_users(lower) ==> may_view_users(higher),
        may_modify_entries(lower) ==> may_modify_entries(higher),
{
}

/// Whoever may add and delete entries may also see the users and the leaderboard.
pub proof fn writers_may_view_users(t: UserType)
    ensures
        may_modify_entries(t) ==> may_view_users(t),
{
}

/// A name that is accepted as a username is also accepted in the `who` field of
/// an entry.
pub proof fn accepted_username_is_accepted_who(name: Seq<char>)
    ensures
        username_accepted(name) ==> who_accepted(name),
{
    if username_accepted(name) {
        assert forall|i: int| 0 <= i < name.len() implies who_char_accepted(#[trigger] name[i]) by {
            assert(is_alphabetic_char(name[i]));
        }
    }
}

/// Splitting a text at a separator loses nothing: there is at least one piece,
/// no piece holds the separator, and joining the pieces with the separator gives
/// the text back.
pub proof fn split_then_join(s: Seq<char>, sep: char)
    ensures
        split_seq(s, sep).len() >= 1,
        forall|i: int| 0 <= i < split_seq(s, sep).len() ==> !(#[trigger] split_seq(s, sep)[i]).contains(sep),
        join_seq(split_seq(s, sep), sep) == s,
    decreases s.len(),
{
    if s.len() == 0 {
        assert(join_seq(split_seq(s, sep), sep) == Seq::<char>::empty());
        assert(s == Seq::<char>::empty());
    } else {
        let init = s.drop_last();
        let c = s.last();
        split_then_join(init, sep);
        let rest = split_seq(init, sep);
        assert(s == init.push(c));
        if c == sep {
            let pieces = rest.push(Seq::<char>::empty());
            assert(pieces.drop_last() == rest);
            assert(join_seq(pieces, sep) == join_seq(rest, sep).push(sep) + Seq::<char>::empty());
            assert forall|i: int| 0 <= i < pieces.len() implies !(#[trigger] pieces[i]).contains(sep) by {
                if i < rest.len() {
                    assert(pieces[i] == rest[i]);
                }
            }
        } else {
            let last = rest.len() - 1;
            let pieces = rest.update(last, rest.last().push(c));
            assert forall|i: int| 0 <= i < pieces.len() implies !(#[trigger] pieces[i]).contains(sep) by {
                if i == last {
                    let p = rest.last().push(c);
                    assert(!rest[last].contains(sep));
                    if p.contains(sep) {
                        let k = choose|k: int| 0 <= k < p.len() && p[k] == sep;
                        if k < p.len() - 1 {
                            assert(rest.last()[k] == sep);
                        }
                    }
                } else {
                    assert(pieces[i] == rest[i]);
                }
            }
            if rest.len() == 1 {
                assert(pieces[0] == rest[0].push(c));
                assert(join_seq(rest, sep) == rest[0]);
            } else {
                assert(pieces.drop_last() == rest.drop_last());
                assert(join_seq(rest, sep) == join_seq(rest.drop_last(), sep).push(sep) + rest.last());
                assert(join_seq(pieces, sep) == join_seq(rest.drop_last(), sep).push(sep) + rest.last().push(c));
                assert(join_seq(rest.drop_last(), sep).push(sep) + rest.last().push(c)
                    == (join_seq(rest.drop_last(), sep).push(sep) + rest.last()).push(c));
            }
        }
    }
}

proof fn lemma_drop_empty_nonempty(items: Seq<Seq<char>>)
    ensures
        forall|i: int| 0 <= i < drop_empty(items).len() ==> (#[trigger] drop_empty(items)[i]).len() > 0,
    decreases items.len(),
{
    if items.len() > 0 {
        lemma_drop_empty_nonempty(items.drop_last());
        let rest = drop_empty(items.drop_last());
        if items.last().len() > 0 {
            assert forall|i: int| 0 <= i < rest.push(items.last()).len() implies (
            #[trigger] rest.push(items.last())[i]).len() > 0 by {
                if i < rest.len() {
                    assert(rest.push(items.last())[i] == rest[i]);
                }
            }
        }
    }
}

/// No group read from a `Remote-Groups` value is empty.
pub proof fn parsed_groups_are_nonempty(v: Option<Seq<char>>)
    ensures
        forall|i: int| 0 <= i < parse_groups(v).len() ==> (#[trigger] parse_groups(v)[i]).len() > 0,
{
    let text = match v {
        Some(s) => s,
        None => Seq::<char>::empty(),
    };
    lemma_drop_empty_nonempty(split_seq(text, ',').map_values(|g: Seq<char>| crate::text::trimmed(g)));
}

/// Adding an entry as a writer or an admin comes to exactly what creating the
/// entry comes to: the same authors, or the same refusal.
pub proof fn writers_add_entries_as_created(t: UserType, who: Seq<char>, r: Result<Vec<String>, Error>)
    requires
        may_modify_entries(t),
    ensures
        add_entry_outcome(t, who, r) == authors_outcome(who, r),
{
}

/// A reader or an inactive user adding an entry is refused, whatever the entry.
pub proof fn others_cannot_add_entries(t: UserType, who: Seq<char>, r: Result<Vec<String>, Error>)
    requires
        !may_modify_entries(t),
    ensures
        add_entry_outcome(t, who, r) <==> (r matches Err(e) && e == Error::NoPermission),
{
}

/// The role follows from the configured group names, whatever they are: a user
/// in the configured admin group is an admin; otherwise one in the writer group
/// is a writer; otherwise one in the reader group is a reader; a user in none
/// of them is inactive. In particular one configured group alone grants its role.
pub proof fn configured_groups_grant_roles(groups: Seq<Seq<char>>, names: GroupNames)
    ensures
        groups.contains(names.admin@) ==> group_role(groups, names) == UserType::Admin,
        !groups.contains(names.admin@) && groups.contains(names.writer@) ==> group_role(groups, names)
            == UserType::Writer,
        !groups.contains(names.admin@) && !groups.contains(names.writer@) && groups.contains(
            names.reader@,
        ) ==> group_role(groups, names) == UserType::Reader,
        !groups.contains(names.admin@) && !groups.contains(names.writer@) && !groups.contains(
            names.reader@,
        ) ==> group_role(groups, names) == UserType::Inactive,
        group_role(seq![names.admin@], names) == UserType::Admin,
        names.writer@ != names.admin@ ==> group_role(seq![names.writer@], names) == UserType::Writer,
        names.reader@ != names.admin@ && names.reader@ != names.writer@ ==> group_role(
            seq![names.reader@],
            names,
        ) == UserType::Reader,
{
    assert(seq![names.admin@][0] == names.admin@);
    assert(seq![names.writer@][0] == names.writer@);
    assert(seq![names.reader@][0] == names.reader@);
    if names.writer@ != names.admin@ {
        assert(!seq![names.writer@].contains(names.admin@));
    }
    if names.reader@ != names.admin@ && names.reader@ != names.writer@ {
        assert(!seq![names.reader@].contains(names.admin@));
        assert(!seq![names.reader@].contains(names.writer@));
    }
}

/// Where a piece of a split text stands in the text: every piece is the text
/// between two positions, and the last piece ends the text.
proof fn split_piece_start(s: Seq<char>, sep: char, i: int) -> (start: int)
    requires
        0 <= i < split_seq(s, sep).len(),
    ensures
        0 <= start,
        start + split_seq(s, sep)[i].len() <= s.len(),
        s.subrange(start, start + split_seq(s, sep)[i].len()) == split_seq(s, sep)[i],
        i == split_seq(s, sep).len() - 1 ==> start + split_seq(s, sep)[i].len() == s.len(),
    decreases s.len(),
{
    split_then_join(s, sep);
    if s.len() == 0 {
        assert(s.subrange(0, 0) == split_seq(s, sep)[i]);
        0
    } else {
        let init = s.drop_last();
        let c = s.last();
        let rest = split_seq(init, sep);
        split_then_join(init, sep);
        if c == sep {
            if i == rest.len() {
                assert(split_seq(s, sep)[i] == Seq::<char>::empty());
                assert(s.subrange(s.len() as int, s.len() as int) == Seq::<char>::empty());
                s.len() as int
            } else {
                let st = split_piece_start(init, sep, i);
                assert(split_seq(s, sep)[i] == rest[i]);
                assert(s.subrange(st, st + rest[i].len()) == init.subrange(st, st + rest[i].len()));
                st
            }
        } else {
            let last = rest.len() - 1;
            if i < last {
                let st = split_piece_start(init, sep, i);
                assert(split_seq(s, sep)[i] == rest[i]);
                assert(s.subrange(st, st + rest[i].len()) == init.subrange(st, st + rest[i].len()));
                st
            } else {
                let st = split_piece_start(init, sep, last);
                let p = rest[last].push(c);
                assert(split_seq(s, sep)[i] == p);
                assert(init.subrange(st, init.len() as int) == rest[last]);
                assert(s.subrange(st, s.len() as int) == init.subrange(st, init.len() as int).push(c));
                st
            }
        }
    }
}

/// Where the text without its leading whitespace begins.
proof fn trim_start_offset(s: Seq<char>) -> (k: int)
    ensures
        0 <= k <= s.len(),
        trim_start(s) == s.subrange(k, s.len() as int),
        trim_start(s).len() > 0 ==> !is_whitespace_char(trim_start(s)[0]),
        forall|m: int| 0 <= m < k ==> is_whitespace_char(#[trigger] s[m]),
    decreases s.len(),
{
    if s.len() > 0 && is_whitespace_char(s[0]) {
        let k = trim_start_offset(s.drop_first());
        assert(s.drop_first().subrange(k, s.drop_first().len() as int) == s.subrange(k + 1, s.len() as int));
        assert forall|m: int| 0 <= m < k + 1 implies is_whitespace_char(#[trigger] s[m]) by {
            if m > 0 {
                assert(s.drop_first()[m - 1] == s[m]);
            }
        }
        k + 1
    } else {
        assert(s.subrange(0, s.len() as int) == s);
        0
    }
}

/// Where the text without its trailing whitespace ends.
proof fn trim_end_offset(s: Seq<char>) -> (k: int)
    ensures
        0 <= k <= s.len(),
        trim_end(s) == s.subrange(0, k),
        trim_end(s).len() > 0 ==> !is_whitespace_char(trim_end(s).last()),
        forall|m: int| k <= m < s.len() ==> is_whitespace_char(#[trigger] s[m]),
    decreases s.len(),
{
    if s.len() > 0 && is_whitespace_char(s.last()) {
        let k = trim_end_offset(s.drop_last());
        assert(s.drop_last().subrange(0, k) == s.subrange(0, k));
        assert forall|m: int| k <= m < s.len() implies is_whitespace_char(#[trigger] s[m]) by {
            if m < s.len() - 1 {
                assert(s.drop_last()[m] == s[m]);
            }
        }
        k
    } else {
        assert(s.subrange(0, s.len() as int) == s);
        s.len() as int
    }
}

/// Which of the items a kept item is.
proof fn drop_empty_source(items: Seq<Seq<char>>, i: int) -> (j: int)
    requires
        0 <= i < drop_empty(items).len(),
    ensures
        0 <= j < items.len(),
        drop_empty(items)[i] == items[j],
    decreases items.len(),
{
    let rest = drop_empty(items.drop_last());
    if items.last().len() > 0 && i == rest.len() {
        (items.len() - 1) as int
    } else {
        assert(drop_empty(items)[i] == rest[i]);
        let j = drop_empty_source(items.drop_last(), i);
        assert(items.drop_last()[j] == items[j]);
        j
    }
}

/// Every group read from a `Remote-Groups` value is written in that value
/// exactly as it stands, characters and case unchanged: it is a nonempty stretch
/// of the text that holds no comma and neither begins nor ends with whitespace.
pub proof fn parsed_groups_are_written_in_header(text: Seq<char>)
    ensures
        forall|i: int|
            #![trigger parse_groups(Some(text))[i]]
            0 <= i < parse_groups(Some(text)).len() ==> {
                let g = parse_groups(Some(text))[i];
                &&& g.len() > 0
                &&& !g.contains(',')
                &&& !is_whitespace_char(g[0])
                &&& !is_whitespace_char(g.last())
                &&& exists|start: int|
                    0 <= start && start + g.len() <= text.len() && #[trigger] text.subrange(
                        start,
                        start + g.len(),
                    ) == g
            },
{
    let pieces = split_seq(text, ',');
    let mapped = pieces.map_values(|p: Seq<char>| trimmed(p));
    assert(parse_groups(Some(text)) == drop_empty(mapped));
    split_then_join(text, ',');
    parsed_groups_are_nonempty(Some(text));
    assert forall|i: int|
        #![trigger parse_groups(Some(text))[i]]
        0 <= i < parse_groups(Some(text)).len() implies {
            let g = parse_groups(Some(text))[i];
            &&& g.len() > 0
            &&& !g.contains(',')
            &&& !is_whitespace_char(g[0])
            &&& !is_whitespace_char(g.last())
            &&& exists|start: int|
                0 <= start && start + g.len() <= text.len() && #[trigger] text.subrange(
                    start,
                    start + g.len(),
                ) == g
        } by {
        let g = parse_groups(Some(text))[i];
        let j = drop_empty_source(mapped, i);
        let p = pieces[j];
        assert(g == trimmed(p));
        let st = split_piece_start(text, ',', j);
        let a = trim_start_offset(p);
        let q = trim_start(p);
        let b = trim_end_offset(q);
        assert(g == p.subrange(a + 0, a + b));
        assert(text.subrange(st + a, st + a + b) == g);
        assert(g.len() == b);
        assert(q[0] == g[0]);
        assert(!p.contains(','));
        if g.contains(',') {
            let k = choose|k: int| 0 <= k < g.len() && g[k] == ',';
            assert(p[a + k] == ',');
        }
    }
}

/// A registration is accepted only when every check passes: the registration
/// password is one of the three, every character of the username is
/// alphabetic, and the password has at least 8 bytes, whatever role is granted.
/// The role is the first of reader, writer, admin whose password was given.
pub proof fn registration_needs_every_check(
    username: Seq<char>,
    password: Seq<char>,
    creation_password: Seq<char>,
    passwords: RegistrationPasswords,
)
    ensures
        registration_check(username, password, creation_password, passwords) is Ok <==> {
            &&& (creation_password == passwords.read@ || creation_password == passwords.write@
                || creation_password == passwords.admin@)
            &&& forall|i: int| 0 <= i < username.len() ==> is_alphabetic_char(#[trigger] username[i])
            &&& encode_utf8(password).len() >= 8
        },
        registration_check(username, password, creation_password, passwords) matches Ok(t) ==> {
            &&& (t == UserType::Reader <==> creation_password == passwords.read@)
            &&& (t == UserType::Writer <==> (creation_password != passwords.read@
                && creation_password == passwords.write@))
            &&& (t == UserType::Admin <==> (creation_password != passwords.read@
                && creation_password != passwords.write@ && creation_password == passwords.admin@))
        },
{
}

/// The `who` field accepts exactly the texts whose characters are all
/// alphabetic, whitespace or `+`.
pub proof fn who_accepts_letters_whitespace_and_plus(who: Seq<char>)
    ensures
        who_accepted(who) <==> forall|i: int|
            0 <= i < who.len() ==> (is_alphabetic_char(#[trigger] who[i]) || is_whitespace_char(who[i])
                || who[i] == '+'),
{
}

/// The months have the lengths of the Gregorian calendar: 31 days for January,
/// March, May, July, August, October and December; 30 for April, June,
/// September and November; February 29 in a leap year (divisible by 4, and not
/// by 100 unless by 400) and 28 otherwise; so a year has 366 or 365 days.
pub proof fn months_have_calendar_lengths(year: int)
    ensures
        days_in_month(year, 1) == 31,
        days_in_month(year, 3) == 31,
        days_in_month(year, 5) == 31,
        days_in_month(year, 7) == 31,
        days_in_month(year, 8) == 31,
        days_in_month(year, 10) == 31,
        days_in_month(year, 12) == 31,
        days_in_month(year, 4) == 30,
        days_in_month(year, 6) == 30,
        days_in_month(year, 9) == 30,
        days_in_month(year, 11) == 30,
        days_in_month(year, 2) == (if year % 4 == 0 && (year % 100 != 0 || year % 400 == 0) {
            29int
        } else {
            28int
        }),
        days_in_month(year, 1) + days_in_month(year, 2) + days_in_month(year, 3) + days_in_month(year, 4)
            + days_in_month(year, 5) + days_in_month(year, 6) + days_in_month(year, 7)
            + days_in_month(year, 8) + days_in_month(year, 9) + days_in_month(year, 10)
            + days_in_month(year, 11) + days_in_month(year, 12) == (if year % 4 == 0 && (year % 100
            != 0 || year % 400 == 0) {
            366int
        } else {
            365int
        }),
{
}

/// The last day of a month is a real date and the day after it is not: day 31
/// is valid exactly in the months of 31 days, and day 30 is valid in every month
/// but February.
pub proof fn last_days_of_months(t: Timestamp)
    requires
        t.hour < 24,
        t.minute < 60,
        t.second < 60,
    ensures
        t.day == 31 ==> (valid_timestamp(t) <==> (t.month == 1 || t.month == 3 || t.month == 5
            || t.month == 7 || t.month == 8 || t.month == 10 || t.month == 12)),
        t.day == 30 ==> (valid_timestamp(t) <==> (1 <= t.month <= 12 && t.month != 2)),
{
    months_have_calendar_lengths(t.year as int);
}

/// Trimming removes whitespace from the two ends and nothing else: the result is
/// the stretch of the text between two positions, everything before and after
/// that stretch is whitespace, and the result neither begins nor ends with
/// whitespace.
pub proof fn trim_removes_only_outer_whitespace(s: Seq<char>)
    ensures
        exists|a: int, b: int|
            0 <= a <= b <= s.len() && #[trigger] s.subrange(a, b) == trimmed(s) && (forall|m: int|
                0 <= m < a ==> is_whitespace_char(#[trigger] s[m])) && (forall|m: int|
                b <= m < s.len() ==> is_whitespace_char(#[trigger] s[m])),
        trimmed(s).len() > 0 ==> !is_whitespace_char(trimmed(s)[0]) && !is_whitespace_char(
            trimmed(s).last(),
        ),
{
    let a = trim_start_offset(s);
    let q = trim_start(s);
    let b = trim_end_offset(q);
    assert(trimmed(s) == s.subrange(a, a + b));
    assert forall|m: int| a + b <= m < s.len() implies is_whitespace_char(#[trigger] s[m]) by {
        assert(q[m - a] == s[m]);
    }
    if trimmed(s).len() > 0 {
        assert(trimmed(s)[0] == q[0]);
    }
    assert(s.subrange(a, a + b) == trimmed(s));
}

/// The number a text of decimal digits stands for.
pub open spec fn digits_value(digits: Seq<char>) -> int
    decreases digits.len(),
{
    if digits.len() == 0 {
        0
    } else {
        digits_value(digits.drop_last()) * 10 + (digits.last() as int - 48)
    }
}

/// Decimal notation is right: it is made of the digits `0` to `9`, it has no
/// leading zero except for zero itself, and read back it gives the number.
pub proof fn decimal_reads_back(n: nat)
    ensures
        decimal(n).len() >= 1,
        forall|i: int| 0 <= i < decimal(n).len() ==> '0' <= #[trigger] decimal(n)[i] <= '9',
        n > 0 ==> decimal(n)[0] != '0',
        digits_value(decimal(n)) == n,
    decreases n,
{
    if n >= 10 {
        decimal_reads_back(n / 10);
        let d = decimal(n / 10);
        assert(decimal(n) == d.push(digit_char((n % 10) as int)));
        assert(decimal(n).drop_last() == d);
        assert forall|i: int| 0 <= i < decimal(n).len() implies '0' <= #[trigger] decimal(n)[i] <= '9' by {
            if i < d.len() {
                assert(decimal(n)[i] == d[i]);
            }
        }
        assert(decimal(n)[0] == d[0]);
        assert(decimal(n).last() == digit_char((n % 10) as int));
        assert(digit_char((n % 10) as int) as int == 48 + n % 10);
        assert(digits_value(decimal(n)) == digits_value(decimal(n).drop_last()) * 10 + (decimal(n).last() as int - 48));
        assert(digits_value(decimal(n)) == digits_value(d) * 10 + (n % 10));
        assert((n / 10) * 10 + n % 10 == n);
    } else {
        assert(decimal(n).drop_last() == Seq::<char>::empty());
        assert(digits_value(Seq::<char>::empty()) == 0);
        assert(decimal(n).last() == digit_char(n as int));
        assert(digit_char(n as int) as int == 48 + n);
    }
}

} // verus!
