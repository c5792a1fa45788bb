use std::time::Duration;

use barepass::form::{clear_text_input, delete_previous_word, AddEntryForm, AddField};
use barepass::model::PasswordEntry;
use barepass::search::{contains_ascii_case_insensitive, password_entry_matches_search};
use barepass::session::{auto_lock_timeout_from_value, inactivity_expired};

#[test]
fn delete_previous_word_handles_unicode_and_trailing_whitespace() {
    let mut value = "alpha béta gamma   ".to_string();

    delete_previous_word(&mut value);
    assert_eq!(value, "alpha béta ");

    delete_previous_word(&mut value);
    assert_eq!(value, "alpha ");

    delete_previous_word(&mut value);
    assert_eq!(value, "");
}

#[test]
fn clear_text_input_removes_the_entire_value() {
    let mut value = "remove everything".to_string();

    clear_text_input(&mut value);

    assert!(value.is_empty());
}

fn timeout(value: Option<&str>) -> Option<Duration> {
    auto_lock_timeout_from_value(value).map(Duration::from_secs)
}

#[test]
fn auto_lock_configuration_supports_default_override_disable_and_invalid_fallback() {
    assert_eq!(timeout(None), Some(Duration::from_secs(300)));
    assert_eq!(timeout(Some("15")), Some(Duration::from_secs(15)));
    assert_eq!(timeout(Some("0")), None);
    assert_eq!(timeout(Some("not-a-number")), Some(Duration::from_secs(300)));
}

#[test]
fn auto_lock_value_is_trimmed_and_blank_means_default() {
    assert_eq!(auto_lock_timeout_from_value(Some("  42 \n")), Some(42));
    assert_eq!(auto_lock_timeout_from_value(Some("   ")), Some(300));
    assert_eq!(auto_lock_timeout_from_value(Some("")), Some(300));
    assert_eq!(auto_lock_timeout_from_value(Some("-5")), Some(300));
    assert_eq!(auto_lock_timeout_from_value(Some("18446744073709551616")), Some(300));
    assert_eq!(
        auto_lock_timeout_from_value(Some("18446744073709551615")),
        Some(u64::MAX)
    );
}

fn expired(unlocked: bool, timeout: Option<Duration>, idle: Duration) -> bool {
    inactivity_expired(unlocked, timeout.map(|t| t.as_secs()), idle.as_nanos())
}

#[test]
fn inactivity_expiration_requires_an_unlocked_vault_and_enabled_timeout() {
    let timeout = Some(Duration::from_secs(5));

    assert!(!expired(false, timeout, Duration::from_secs(10)));
    assert!(!expired(true, timeout, Duration::from_secs(4)));
    assert!(expired(true, timeout, Duration::from_secs(5)));
    assert!(!expired(true, None, Duration::from_secs(10)));
}

#[test]
fn inactivity_compares_at_nanosecond_precision() {
    let five = Duration::from_secs(5);
    assert!(!expired(true, Some(five), five - Duration::from_nanos(1)));
    assert!(expired(true, Some(five), five));
    assert!(expired(true, Some(Duration::from_secs(0)), Duration::from_secs(0)));
}

#[test]
fn search_matches_visible_metadata_but_never_password_contents() {
    let entry = PasswordEntry {
        id: 1,
        title: "GitHub Work".into(),
        username: "Tamas@Example.Test".into(),
        password: "hidden-search-secret".into(),
        url: "https://github.com".into(),
        notes: "Documentation account".into(),
        deleted_unix: None,
    };

    assert!(password_entry_matches_search(&entry, ""));
    assert!(password_entry_matches_search(&entry, "github"));
    assert!(password_entry_matches_search(&entry, "EXAMPLE.TEST"));
    assert!(password_entry_matches_search(&entry, "documentation"));
    assert!(!password_entry_matches_search(
        &entry,
        "hidden-search-secret"
    ));
    assert!(!password_entry_matches_search(&entry, "missing"));
}

#[test]
fn substring_search_ignores_ascii_case_only() {
    assert!(contains_ascii_case_insensitive("abc", ""));
    assert!(contains_ascii_case_insensitive("", ""));
    assert!(!contains_ascii_case_insensitive("", "a"));
    assert!(contains_ascii_case_insensitive("xxABCxx", "abc"));
    assert!(!contains_ascii_case_insensitive("ab", "abc"));
    assert!(!contains_ascii_case_insensitive("É", "é"));
}

#[test]
fn form_fields_move_and_hold_text() {
    let mut form = AddEntryForm::new();
    assert!(form.field() == AddField::Title);
    form.previous_field();
    assert!(form.field() == AddField::Title);
    form.current_value_mut().push_str("Mail");
    form.next_field();
    form.next_field();
    assert!(form.field() == AddField::Password);
    form.current_value_mut().push('x');
    form.next_field();
    form.next_field();
    form.next_field();
    assert!(form.field() == AddField::Notes);
    assert_eq!(form.value(AddField::Title), "Mail");
    assert_eq!(form.value(AddField::Password), "x");
    form.reset();
    assert!(form.field() == AddField::Title);
    assert_eq!(form.value(AddField::Title), "");
    assert_eq!(form.value(AddField::Password), "");
}

#[test]
fn loading_an_entry_copies_every_field() {
    let entry = PasswordEntry {
        id: 9,
        title: "T".into(),
        username: "U".into(),
        password: "P".into(),
        url: "L".into(),
        notes: "N".into(),
        deleted_unix: None,
    };
    let mut form = AddEntryForm::new();
    form.next_field();
    form.current_value_mut().push_str("stale");
    form.load_from_entry(&entry);
    assert!(form.field() == AddField::Title);
    assert_eq!(form.value(AddField::Title), "T");
    assert_eq!(form.value(AddField::Username), "U");
    assert_eq!(form.value(AddField::Password), "P");
    assert_eq!(form.value(AddField::Url), "L");
    assert_eq!(form.value(AddField::Notes), "N");
}

#[test]
fn delete_previous_word_on_blank_text() {
    let mut value = "   ".to_string();
    delete_previous_word(&mut value);
    assert_eq!(value, "");
    delete_previous_word(&mut value);
    assert_eq!(value, "");
    let mut tabs = "a\tb".to_string();
    delete_previous_word(&mut tabs);
    assert_eq!(tabs, "a\t");
}

#[test]
fn auto_lock_value_accepts_a_plus_sign_and_refuses_other_text() {
    assert_eq!(auto_lock_timeout_from_value(Some("+7")), Some(7));
    assert_eq!(auto_lock_timeout_from_value(Some("+")), Some(300));
    assert_eq!(auto_lock_timeout_from_value(Some("1x")), Some(300));
    assert_eq!(auto_lock_timeout_from_value(Some("1 2")), Some(300));
    assert_eq!(auto_lock_timeout_from_value(Some("0007")), Some(7));
    assert_eq!(auto_lock_timeout_from_value(Some("99999999999999999999x")), Some(300));
    assert_eq!(auto_lock_timeout_from_value(Some("\u{2003}15\u{3000}")), Some(15));
}
