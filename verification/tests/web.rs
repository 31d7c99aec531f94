use loodsenboekje::text::char_is_whitespace;
use loodsenboekje::view::{entries_error_text, leaderboard_error_text, results_label, search_link, shows_account_links};
use loodsenboekje::auth::AuthMode;
use loodsenboekje::error::{Error, INTERNAL_SERVER_ERROR};
use loodsenboekje::model;
use loodsenboekje::model::user::{User, UserType};
use loodsenboekje::text::{i64_to_string, split_on, trim};
use loodsenboekje::view::{
    input_feedback, login_status_label, shows_delete_button, shows_entry_form,
};

#[test]
fn error_from_model_error() {
    assert_eq!(Error::from(model::Error::NoPermission), Error::ModelError(model::Error::NoPermission));
    assert_eq!(Error::from(model::Error::Database), Error::ModelError(model::Error::Database));
}

#[test]
fn every_error_is_answered_with_500() {
    assert_eq!(INTERNAL_SERVER_ERROR, 500);
    let (status, body) = Error::LoginFail.response_parts();
    assert_eq!(status, 500);
    assert_eq!(body, "UNHANDLED ERROR");
    let (status, body) = Error::ModelError(model::Error::InvalidInput).response_parts();
    assert_eq!(status, 500);
    assert_eq!(body, "UNHANDLED ERROR");
}

#[test]
fn view_decisions() {
    assert!(shows_entry_form(UserType::Writer));
    assert!(shows_entry_form(UserType::Admin));
    assert!(!shows_entry_form(UserType::Reader));
    assert!(!shows_entry_form(UserType::Inactive));
    assert!(shows_delete_button(UserType::Admin));
    assert!(!shows_delete_button(UserType::Writer));
    assert!(!shows_delete_button(UserType::Reader));
    assert!(!shows_delete_button(UserType::Inactive));
}

#[test]
fn input_feedback_marks_invalid_content() {
    let ok = input_feedback(true, "Alleen letters toegestaan");
    assert_eq!(ok.invalid, "false");
    assert_eq!(ok.message, "");
    let bad = input_feedback(false, "Alleen letters toegestaan");
    assert_eq!(bad.invalid, "true");
    assert_eq!(bad.message, "Alleen letters toegestaan");
}

#[test]
fn navigation_label() {
    let u = User { id: 1, name: "Anna".to_string(), user_type: UserType::Reader };
    assert_eq!(login_status_label(Some(&u)), "Ingelogd als Anna");
    assert_eq!(login_status_label(None), "Niet ingelogd");
}

#[test]
fn text_helpers() {
    assert_eq!(trim("  a b \t\n"), "a b");
    assert_eq!(trim("\u{2003}x\u{A0}"), "x");
    assert_eq!(trim("   "), "");
    assert_eq!(split_on("a+b++c", '+'), vec!["a", "b", "", "c"]);
    assert_eq!(split_on("", '+'), vec![""]);
    assert_eq!(split_on("+", '+'), vec!["", ""]);
    assert_eq!(i64_to_string(0), "0");
    assert_eq!(i64_to_string(-987), "-987");
    assert_eq!(i64_to_string(i64::MAX), i64::MAX.to_string());
}

#[test]
fn account_links_only_with_local_accounts() {
    assert!(shows_account_links(AuthMode::Local));
    assert!(!shows_account_links(AuthMode::Authelia));
}

#[test]
fn table_texts() {
    assert_eq!(results_label(0), "0 resultaten");
    assert_eq!(results_label(3), "3 resultaten");
    assert_eq!(results_label(120), "120 resultaten");
    assert_eq!(entries_error_text(Some("no permission")), "no permission");
    assert_eq!(entries_error_text(None), "Server error");
    assert_eq!(leaderboard_error_text(Some("boom")), "boom");
    assert_eq!(leaderboard_error_text(None), "Error loading leaderboard");
    assert_eq!(search_link("Anna"), "/?search=Anna");
    assert_eq!(search_link(""), "/?search=");
}

#[test]
fn whitespace_table_agrees_with_std() {
    for v in 0u32..=0x10FFFF {
        if let Some(c) = char::from_u32(v) {
            assert_eq!(char_is_whitespace(c), c.is_whitespace(), "U+{v:04X}");
        }
    }
}

#[test]
fn ascii_letters_are_exactly_the_alphabetic_ascii() {
    for v in 0u8..128 {
        let c = v as char;
        let one = c.to_string();
        assert_eq!(loodsenboekje::model::user::validate_username(&one), c.is_ascii_alphabetic(), "{v}");
    }
}
