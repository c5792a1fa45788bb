use barepass::model::PasswordEntry;
use barepass::password_analysis::{
    character_class_count, has_obvious_ascii_sequence, is_repeated_ascii_pattern,
    is_single_character_repetition, matches_common_password_pattern, reused_password_groups,
    weak_password_findings, weakness_reasons,
};

fn entry(id: u64, title: &str, password: &str, deleted_unix: Option<u64>) -> PasswordEntry {
    PasswordEntry {
        id,
        title: title.into(),
        username: format!("user-{id}"),
        password: password.into(),
        url: String::new(),
        notes: String::new(),
        deleted_unix,
    }
}

#[test]
fn reused_password_groups_find_exact_active_reuse_without_empty_or_deleted_entries() {
    let entries = vec![
        entry(1, "Alpha", "same-secret", None),
        entry(2, "Beta", "different-secret", None),
        entry(3, "Gamma", "same-secret", None),
        entry(4, "Deleted duplicate", "same-secret", Some(123)),
        entry(5, "Empty one", "", None),
        entry(6, "Empty two", "", None),
        entry(7, "Delta", "other-reuse", None),
        entry(8, "Epsilon", "other-reuse", None),
    ];

    let groups = reused_password_groups(&entries);

    assert_eq!(groups.len(), 2);
    assert_eq!(
        groups[0].iter().map(|entry| entry.id).collect::<Vec<_>>(),
        vec![1, 3]
    );
    assert_eq!(
        groups[1].iter().map(|entry| entry.id).collect::<Vec<_>>(),
        vec![7, 8]
    );
}

#[test]
fn reused_password_groups_return_empty_when_active_passwords_are_unique() {
    let entries = vec![
        entry(1, "Alpha", "first", None),
        entry(2, "Beta", "second", None),
        entry(3, "Gamma", "", None),
    ];

    assert!(reused_password_groups(&entries).is_empty());
}

#[test]
fn weak_password_findings_flag_concrete_patterns_without_showing_deleted_or_empty_entries() {
    let entries = vec![
        entry(1, "Short", "abc123", None),
        entry(2, "Common variation", "Password123!", None),
        entry(3, "Repeated", "abcabcabcabc", None),
        entry(4, "Sequence", "zzabcdZZ!!22", None),
        entry(5, "Deleted weak", "123456", Some(123)),
        entry(6, "Empty", "", None),
        entry(7, "Long passphrase", "correct horse battery staple", None),
        entry(8, "Generated-ish", "N7!xQ2@vL9#pR4$kT8", None),
    ];

    let findings = weak_password_findings(&entries);
    let ids = findings
        .iter()
        .map(|finding| finding.entry.id)
        .collect::<Vec<_>>();

    assert_eq!(ids, vec![1, 2, 3, 4]);
    assert!(findings.iter().all(|finding| !finding.reasons.is_empty()));
}

#[test]
fn common_password_stems_catch_predictable_suffixes() {
    assert!(matches_common_password_pattern("Password123!"));
    assert!(matches_common_password_pattern("WELCOME2026"));
    assert!(matches_common_password_pattern("qwerty!"));
    assert!(!matches_common_password_pattern(
        "correct-horse-battery-staple"
    ));
}

#[test]
fn repeated_and_sequence_detection_are_deliberately_narrow() {
    assert!(is_single_character_repetition("aaaaaaaa"));
    assert!(is_repeated_ascii_pattern(b"passpasspass"));
    assert!(is_repeated_ascii_pattern(b"abcabcabc"));
    assert!(has_obvious_ascii_sequence(b"xx1234yy"));
    assert!(has_obvious_ascii_sequence(b"xxDCBAyy"));

    assert!(!is_repeated_ascii_pattern(b"not-a-repeat"));
    assert!(!has_obvious_ascii_sequence(b"N7!xQ2@vL9"));
}

#[test]
fn groups_skip_entries_already_reported() {
    let entries = vec![
        entry(1, "A", "x", None),
        entry(2, "B", "x", None),
        entry(3, "C", "x", None),
    ];
    let groups = reused_password_groups(&entries);
    assert_eq!(groups.len(), 1);
    assert_eq!(
        groups[0].iter().map(|entry| entry.id).collect::<Vec<_>>(),
        vec![1, 2, 3]
    );
}

#[test]
fn character_classes_are_counted_once_each() {
    assert_eq!(character_class_count(""), 0);
    assert_eq!(character_class_count("abc"), 1);
    assert_eq!(character_class_count("aB"), 2);
    assert_eq!(character_class_count("aB3"), 3);
    assert_eq!(character_class_count("aB3!"), 4);
    assert_eq!(character_class_count("éé"), 1);
}

#[test]
fn weakness_reasons_name_each_finding() {
    let short = weakness_reasons("abc123");
    assert!(short.iter().any(|reason| *reason == "Fewer than 12 characters."));
    assert!(weakness_reasons("N7!xQ2@vL9#pR4$kT8").is_empty());
    assert!(weakness_reasons("correct horse battery staple").is_empty());
    assert!(!weakness_reasons("aaaaaaaaaaaaaaaa").is_empty());
}

#[test]
fn single_character_repetition_needs_a_repeat() {
    assert!(!is_single_character_repetition(""));
    assert!(!is_single_character_repetition("a"));
    assert!(is_single_character_repetition("ßß"));
    assert!(!is_single_character_repetition("ab"));
}

#[test]
fn sequences_need_four_steps_in_one_class() {
    assert!(!has_obvious_ascii_sequence(b"abc"));
    assert!(has_obvious_ascii_sequence(b"9876"));
    assert!(!has_obvious_ascii_sequence(b"89:;"));
    assert!(!has_obvious_ascii_sequence(b"YZ[\\"));
}
