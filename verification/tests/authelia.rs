use loodsenboekje::auth::authelia::{provisioned_user, resolve_step, ResolveStep};
use loodsenboekje::auth::authelia::try_requested_identity;
use loodsenboekje::auth::authelia::{
    map_groups_to_user_type, parse_group_list, reconcile_existing, requested_identity,
    AutheliaHeaders, GroupNames, DEFAULT_GROUP_ADMIN, DEFAULT_GROUP_READER, DEFAULT_GROUP_WRITER,
    HEADER_EMAIL, HEADER_GROUPS, HEADER_NAME, HEADER_USER,
};
use loodsenboekje::model::user::{SqlUser, UserType};
use loodsenboekje::model::Error;

fn defaults() -> GroupNames {
    GroupNames::from_settings(None, None, None)
}

fn groups(items: &[&str]) -> Vec<String> {
    items.iter().map(|s| s.to_string()).collect()
}

#[test]
fn header_names() {
    assert_eq!(HEADER_USER, "remote-user");
    assert_eq!(HEADER_GROUPS, "remote-groups");
    assert_eq!(HEADER_NAME, "remote-name");
    assert_eq!(HEADER_EMAIL, "remote-email");
}

#[test]
fn group_names_default_and_override() {
    let g = defaults();
    assert_eq!(g.admin, DEFAULT_GROUP_ADMIN);
    assert_eq!(g.writer, DEFAULT_GROUP_WRITER);
    assert_eq!(g.reader, DEFAULT_GROUP_READER);
    assert_eq!(g.admin, "loodsenboekje-admin");
    let g = GroupNames::from_settings(Some("beheerders".to_string()), None, Some("lezers".to_string()));
    assert_eq!(g.admin, "beheerders");
    assert_eq!(g.writer, "loodsenboekje-writer");
    assert_eq!(g.reader, "lezers");
}

#[test]
fn groups_are_split_trimmed_and_filtered() {
    assert_eq!(parse_group_list(Some("a, b ,c")), groups(&["a", "b", "c"]));
    assert_eq!(parse_group_list(Some(" ,a,, ,b, ")), groups(&["a", "b"]));
    assert_eq!(parse_group_list(Some("")), groups(&[]));
    assert_eq!(parse_group_list(None), groups(&[]));
    assert_eq!(parse_group_list(Some("one group")), groups(&["one group"]));
}

#[test]
fn headers_from_values() {
    let h = AutheliaHeaders::from_header_values(
        Some("anna"),
        Some("loodsenboekje-writer, dev"),
        Some(""),
        Some("anna@example.org"),
    );
    assert_eq!(h.user.as_deref(), Some("anna"));
    assert_eq!(h.groups, groups(&["loodsenboekje-writer", "dev"]));
    assert_eq!(h.name, None);
    assert_eq!(h.email.as_deref(), Some("anna@example.org"));
    let h = AutheliaHeaders::from_header_values(Some(""), None, None, None);
    assert_eq!(h.user, None);
    assert!(h.groups.is_empty());
}

#[test]
fn highest_privilege_wins() {
    let g = defaults();
    assert_eq!(map_groups_to_user_type(&groups(&["loodsenboekje-admin"]), &g), UserType::Admin);
    assert_eq!(
        map_groups_to_user_type(&groups(&["loodsenboekje-reader", "loodsenboekje-admin"]), &g),
        UserType::Admin
    );
    assert_eq!(
        map_groups_to_user_type(&groups(&["loodsenboekje-reader", "loodsenboekje-writer"]), &g),
        UserType::Writer
    );
    assert_eq!(map_groups_to_user_type(&groups(&["loodsenboekje-reader"]), &g), UserType::Reader);
    assert_eq!(map_groups_to_user_type(&groups(&["other"]), &g), UserType::Inactive);
    assert_eq!(map_groups_to_user_type(&groups(&[]), &g), UserType::Inactive);
    // group names are compared exactly
    assert_eq!(map_groups_to_user_type(&groups(&["Loodsenboekje-admin"]), &g), UserType::Inactive);
}

#[test]
fn identity_from_headers() {
    let g = defaults();
    let h = AutheliaHeaders::from_header_values(Some(" ANNA "), Some("loodsenboekje-writer"), None, None);
    let (name, t) = requested_identity(&h, &g).unwrap();
    assert_eq!(name, "Anna");
    assert_eq!(t, UserType::Writer);
    let h = AutheliaHeaders::from_header_values(None, Some("loodsenboekje-admin"), None, None);
    assert!(matches!(requested_identity(&h, &g), Err(Error::NotLoggedIn)));
}

#[test]
fn reconcile_updates_only_changed_roles() {
    let row = SqlUser { id: 9, username: "Anna".to_string(), password: String::new(), user_type: 0 };
    let r = reconcile_existing(row, UserType::Admin);
    assert_eq!(r.update, Some(2));
    assert_eq!(r.user.id, 9);
    assert_eq!(r.user.name, "Anna");
    assert_eq!(r.user.user_type, UserType::Admin);
    let row = SqlUser { id: 9, username: "Anna".to_string(), password: String::new(), user_type: 2 };
    let r = reconcile_existing(row, UserType::Admin);
    assert_eq!(r.update, None);
    assert_eq!(r.user.user_type, UserType::Admin);
}

#[test]
fn blank_remote_user_has_no_identity() {
    let g = defaults();
    let h = AutheliaHeaders::from_header_values(Some("  "), None, None, None);
    assert!(try_requested_identity(&h, &g).is_none());
    let h = AutheliaHeaders::from_header_values(None, None, None, None);
    assert!(matches!(try_requested_identity(&h, &g), Some(Err(Error::NotLoggedIn))));
    let h = AutheliaHeaders::from_header_values(Some("kees"), Some("loodsenboekje-reader"), None, None);
    let (name, t) = try_requested_identity(&h, &g).unwrap().unwrap();
    assert_eq!(name, "Kees");
    assert_eq!(t, UserType::Reader);
}

#[test]
fn resolve_steps() {
    let row = SqlUser { id: 3, username: "Anna".to_string(), password: String::new(), user_type: 0 };
    match resolve_step(Some(row), "Anna".to_string(), UserType::Writer) {
        ResolveStep::Existing(r) => {
            assert_eq!(r.update, Some(1));
            assert_eq!(r.user.id, 3);
            assert_eq!(r.user.user_type, UserType::Writer);
        }
        ResolveStep::Provision(_) => panic!("a stored user is not provisioned again"),
    }
    match resolve_step(None, "Kees".to_string(), UserType::Admin) {
        ResolveStep::Provision(account) => {
            assert_eq!(account.username, "Kees");
            assert_eq!(account.password, "");
            assert_eq!(account.user_type, 2);
            let u = provisioned_user(40, account);
            assert_eq!(u.id, 40);
            assert_eq!(u.name, "Kees");
            assert_eq!(u.user_type, UserType::Admin);
        }
        ResolveStep::Existing(_) => panic!("an unknown user is provisioned"),
    }
}

#[test]
fn default_headers_name_nobody() {
    let h = AutheliaHeaders::default();
    assert!(h.user.is_none());
    assert!(h.groups.is_empty());
    assert!(h.name.is_none());
    assert!(h.email.is_none());
}
