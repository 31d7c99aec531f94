use loodsenboekje::auth::{
    check_login, current_user_from, login_decision, session_user, AuthMode, USER_STRING,
};
use loodsenboekje::model::user::{SqlUser, User, UserType};
use loodsenboekje::model::Error;

const KNOWN_HASH: &str = "$2b$04$EGdrhbKUv8Oc9vGiXX0HQOxSg445d458Muh7DAHskb6QbtCvdxcie";
const KNOWN_PASSWORD: &str = "correctbatteryhorsestapler";

fn stored(password: &str, user_type: i64) -> SqlUser {
    SqlUser { id: 4, username: "Anna".to_string(), password: password.to_string(), user_type }
}

#[test]
fn auth_mode_from_setting() {
    assert_eq!(AuthMode::from_setting(None), AuthMode::Local);
    assert_eq!(AuthMode::from_setting(Some("authelia")), AuthMode::Authelia);
    assert_eq!(AuthMode::from_setting(Some("Authelia")), AuthMode::Authelia);
    assert_eq!(AuthMode::from_setting(Some("AUTHELIA")), AuthMode::Authelia);
    assert_eq!(AuthMode::from_setting(Some("AuThElIa")), AuthMode::Local);
    assert_eq!(AuthMode::from_setting(Some("local")), AuthMode::Local);
    assert_eq!(AuthMode::from_setting(Some("")), AuthMode::Local);
}

#[test]
fn auth_mode_behaviour() {
    assert!(!AuthMode::Local.uses_proxy_headers());
    assert!(AuthMode::Authelia.uses_proxy_headers());
    assert_eq!(AuthMode::Local.logout_redirect(), "/login");
    assert_eq!(AuthMode::Authelia.logout_redirect(), "/");
    assert_eq!(USER_STRING, "user");
}

#[test]
fn login_with_right_password() {
    let user = check_login(stored(KNOWN_HASH, 2), KNOWN_PASSWORD).unwrap();
    assert_eq!(user.id, 4);
    assert_eq!(user.name, "Anna");
    assert_eq!(user.user_type, UserType::Admin);
}

#[test]
fn login_with_wrong_password() {
    assert!(matches!(check_login(stored(KNOWN_HASH, 2), "wrong"), Err(Error::InvalidInput)));
}

#[test]
fn login_against_unreadable_hash() {
    // an account created by being named in an entry has an empty password
    assert!(matches!(check_login(stored("", 3), "anything"), Err(Error::Hashing)));
    assert!(matches!(check_login(stored("not a hash", 1), KNOWN_PASSWORD), Err(Error::Hashing)));
}

#[test]
fn login_decision_cases() {
    let u = login_decision(stored(KNOWN_HASH, 0), Some(true)).unwrap();
    assert_eq!(u.user_type, UserType::Reader);
    assert!(matches!(login_decision(stored(KNOWN_HASH, 0), Some(false)), Err(Error::InvalidInput)));
    assert!(matches!(login_decision(stored(KNOWN_HASH, 0), None), Err(Error::Hashing)));
}

#[test]
fn session_lookup() {
    let u = User { id: 1, name: "Anna".to_string(), user_type: UserType::Writer };
    let found = session_user(Some(u)).unwrap();
    assert_eq!(found.name, "Anna");
    assert!(matches!(session_user(None), Err(Error::NotLoggedIn)));
}

#[test]
fn current_user_hides_errors() {
    let u = User { id: 1, name: "Anna".to_string(), user_type: UserType::Writer };
    assert_eq!(current_user_from(Ok(u)).map(|u| u.id), Some(1));
    assert!(current_user_from(Err(Error::NotLoggedIn)).is_none());
    assert!(current_user_from(Err(Error::Database)).is_none());
}

#[test]
fn account_forms_under_each_mode() {
    assert_eq!(AuthMode::Local.account_form_redirect(), None);
    assert_eq!(AuthMode::Authelia.account_form_redirect(), Some("/"));
    assert!(AuthMode::Local.requires_registration_passwords());
    assert!(!AuthMode::Authelia.requires_registration_passwords());
}
