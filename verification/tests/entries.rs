use loodsenboekje::model::entry::{add_entry_authors, try_add_entry_authors};
use loodsenboekje::model::entry::{author_step, AuthorStep};
use loodsenboekje::model::user::SqlUser;
use loodsenboekje::model::entry::{try_entry_authors, who_names_have_text};
use loodsenboekje::model::entry::{
    author_separator, entry_authors, require_writer, search_pattern, validate_who, Entry, Timestamp,
    WHO_DELIMITER,
};
use loodsenboekje::model::user::UserType;
use loodsenboekje::model::Error;

fn entry_on(year: i32, month: u32, day: u32) -> Entry {
    Entry {
        id: 1,
        how: "Krat bier".to_string(),
        who: "Anna".to_string(),
        created: Timestamp { year, month, day, hour: 12, minute: 30, second: 0 },
    }
}

#[test]
fn who_field_validation() {
    assert_eq!(WHO_DELIMITER, '+');
    assert!(validate_who("Anna"));
    assert!(validate_who("Anna + Piet"));
    assert!(validate_who("Opa Dorus+Oma"));
    assert!(validate_who(""));
    assert!(validate_who("José\t+ Zoë"));
    assert!(!validate_who("Anna, Piet"));
    assert!(!validate_who("Anna2"));
    assert!(!validate_who("Anna & Piet"));
}

#[test]
fn entry_authors_splits_and_normalises() {
    let names = entry_authors("anna + PIET+ opa dorus").unwrap();
    assert_eq!(names, vec!["Anna".to_string(), "Piet".to_string(), "Opa dorus".to_string()]);
    let names = entry_authors("kees").unwrap();
    assert_eq!(names, vec!["Kees".to_string()]);
}

#[test]
fn entry_authors_refuses_invalid_who() {
    assert!(matches!(entry_authors("anna, piet"), Err(Error::InvalidInput)));
    assert!(matches!(entry_authors("r2d2"), Err(Error::InvalidInput)));
}

#[test]
fn only_writers_and_admins_change_entries() {
    assert_eq!(require_writer(UserType::Writer), Ok(()));
    assert_eq!(require_writer(UserType::Admin), Ok(()));
    assert_eq!(require_writer(UserType::Reader), Err(Error::NoPermission));
    assert_eq!(require_writer(UserType::Inactive), Err(Error::NoPermission));
}

#[test]
fn search_pattern_wraps_query() {
    assert_eq!(search_pattern("bier"), "%bier%");
    assert_eq!(search_pattern(""), "%%");
}

#[test]
fn authors_are_listed_with_spaced_delimiter() {
    assert_eq!(author_separator(), " + ");
}

#[test]
fn date_label_pads_day_month_year() {
    assert_eq!(entry_on(2024, 3, 7).date_label(), "07-03-2024");
    assert_eq!(entry_on(2023, 12, 31).date_label(), "31-12-2023");
    assert_eq!(entry_on(987, 1, 1).date_label(), "01-01-0987");
    assert_eq!(entry_on(-5, 6, 15).date_label(), "15-06--005");
    assert_eq!(entry_on(12345, 10, 10).date_label(), "10-10-12345");
    assert_eq!(entry_on(2024, 3, 7).date_label(), format!("{:02}-{:02}-{:04}", 7, 3, 2024));
    assert_eq!(entry_on(-5, 6, 15).date_label(), format!("{:02}-{:02}-{:04}", 15, 6, -5));
}

#[test]
fn blank_author_names_are_caught() {
    assert!(who_names_have_text("anna+piet"));
    assert!(!who_names_have_text("anna+"));
    assert!(!who_names_have_text("anna+ +piet"));
    assert!(!who_names_have_text(""));
    assert!(try_entry_authors("anna++piet").is_none());
    assert!(try_entry_authors("").is_none());
    assert!(matches!(try_entry_authors("anna,+"), Some(Err(Error::InvalidInput))));
    let names = try_entry_authors("anna+piet").unwrap().unwrap();
    assert_eq!(names, vec!["Anna".to_string(), "Piet".to_string()]);
}

#[test]
fn author_steps() {
    let stored = SqlUser { id: 12, username: "Anna".to_string(), password: String::new(), user_type: 1 };
    assert!(matches!(author_step(Some(&stored), "Anna".to_string()), AuthorStep::Existing { user_id: 12 }));
    match author_step(None, "Kees".to_string()) {
        AuthorStep::CreateInactive(row) => {
            assert_eq!(row.username, "Kees");
            assert_eq!(row.password, "");
            assert_eq!(row.user_type, 3);
        }
        AuthorStep::Existing { .. } => panic!("an unknown author is created"),
    }
}

#[test]
fn adding_entries_checks_role_then_who() {
    assert_eq!(add_entry_authors(UserType::Writer, "anna+piet"), entry_authors("anna+piet"));
    assert_eq!(add_entry_authors(UserType::Admin, "kees"), Ok(vec!["Kees".to_string()]));
    assert_eq!(add_entry_authors(UserType::Writer, "r2d2"), Err(Error::InvalidInput));
    assert_eq!(add_entry_authors(UserType::Reader, "anna"), Err(Error::NoPermission));
    // the role is checked before the field
    assert_eq!(add_entry_authors(UserType::Inactive, "r2d2"), Err(Error::NoPermission));
    assert_eq!(try_add_entry_authors(UserType::Reader, "anna++"), Some(Err(Error::NoPermission)));
    assert_eq!(try_add_entry_authors(UserType::Writer, "anna++"), None);
    assert_eq!(try_add_entry_authors(UserType::Admin, "anna"), Some(Ok(vec!["Anna".to_string()])));
}

#[test]
fn timestamp_validity() {
    let t = |year, month, day| Timestamp { year, month, day, hour: 23, minute: 59, second: 59 };
    assert!(t(2024, 2, 29).is_valid());
    assert!(!t(2023, 2, 29).is_valid());
    assert!(t(2000, 2, 29).is_valid());
    assert!(!t(1900, 2, 29).is_valid());
    assert!(t(-4, 2, 29).is_valid());
    assert!(!t(2024, 4, 31).is_valid());
    assert!(t(2024, 12, 31).is_valid());
    assert!(!t(2024, 13, 1).is_valid());
    assert!(!t(2024, 0, 1).is_valid());
    assert!(!t(2024, 1, 0).is_valid());
    assert!(!Timestamp { year: 2024, month: 1, day: 1, hour: 24, minute: 0, second: 0 }.is_valid());
    assert!(!Timestamp { year: 2024, month: 1, day: 1, hour: 0, minute: 60, second: 0 }.is_valid());
    assert!(!Timestamp { year: 2024, month: 1, day: 1, hour: 0, minute: 0, second: 60 }.is_valid());
    for (y, m, d) in [(2024, 2, 29), (2023, 2, 29), (1900, 2, 29), (2024, 6, 31), (-100, 2, 29), (-400, 2, 29)] {
        assert_eq!(t(y, m, d).is_valid(), chrono::NaiveDate::from_ymd_opt(y, m, d).is_some(), "{y}-{m}-{d}");
    }
}
