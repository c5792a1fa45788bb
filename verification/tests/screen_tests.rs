use barepass::app::{Action, App, KeyCode, KeyInput, Mode, UnlockOutcome};
use barepass::crypto::{derive_key, encrypt, KdfConfig, NONCE_LEN, SALT_LEN};
use barepass::form::AddField;
use barepass::model::{PasswordEntry, Vault, CURRENT_VAULT_FORMAT_VERSION};
use barepass::screen::{
    auto_lock_description, deleted_at_text, deleted_rows_of, deleted_title, delete_forever_prompt, empty_prompt,
    entry_details, field_display, field_label, footer_keys, footer_status, form_texts, masked, masked_input,
    move_prompt, panels, secret_texts, vault_info, vault_list_empty, vault_rows, vault_title, Backdrop, EmptyList,
    Overlay,
};
use barepass::storage::{build_header, decrypt_vault_blob, UnlockedVault};

fn key(code: KeyCode) -> KeyInput {
    KeyInput { code, control: false, alt: false, super_key: false, release: false }
}

fn entry(id: u64, title: &str, password: &str, deleted_unix: Option<u64>) -> PasswordEntry {
    PasswordEntry {
        id,
        title: title.into(),
        username: format!("user{id}"),
        password: password.into(),
        url: "https://example.test".into(),
        notes: "n".into(),
        deleted_unix,
    }
}

fn unlocked(entries: Vec<PasswordEntry>) -> UnlockedVault {
    let kdf = KdfConfig { memory_kib: 8192, iterations: 1, parallelism: 1 };
    let salt = [1u8; SALT_LEN];
    let nonce = [2u8; NONCE_LEN];
    let key = derive_key("screen test password", &salt, kdf).unwrap();
    let header = build_header(kdf, &salt, &nonce);
    let mut blob = header.clone();
    blob.extend_from_slice(&encrypt(&key, &nonce, b"{}", &header).unwrap());
    let data = Vault {
        format_version: CURRENT_VAULT_FORMAT_VERSION,
        created_unix: 111,
        updated_unix: 222,
        entries,
        notes: Vec::new(),
    };
    decrypt_vault_blob(&blob, "screen test password").unwrap().into_unlocked(data)
}

fn open_app(entries: Vec<PasswordEntry>) -> App {
    let mut app = App::new(true, None, Some(300), false);
    assert_eq!(app.handle_key(key(KeyCode::Enter), 0), Action::UnlockVault);
    app.unlock_finished(UnlockOutcome::Opened(unlocked(entries)));
    app
}

#[test]
fn masks_have_one_bullet_per_character() {
    assert_eq!(masked("héllo"), "•••••");
    assert_eq!(masked(""), "");
    assert_eq!(field_display(AddField::Password, "abc"), "•••");
    assert_eq!(field_display(AddField::Title, ""), " ");
    assert_eq!(field_display(AddField::Url, "x"), "x");
    assert_eq!(field_label(AddField::Url), " URL ");
}

#[test]
fn the_master_password_is_never_shown() {
    let mut app = App::new(false, None, None, false);
    assert_eq!(masked_input(&app), " ");
    for c in "secret".chars() {
        app.handle_key(key(KeyCode::Char(c)), 0);
    }
    assert_eq!(masked_input(&app), "••••••");
    let (title, _, hint) = secret_texts(app.mode()).unwrap();
    assert_eq!(title, " Create vault ");
    assert_eq!(hint, "Minimum 12 characters  •  Enter continue  •  Esc quit");
    assert!(secret_texts(Mode::Vault).is_none());
    assert_eq!(panels(&app), (Backdrop::Nothing, Overlay::MasterPassword));
    assert_eq!(footer_keys(&app), "  Enter Confirm   Esc Back/Quit");
}

#[test]
fn vault_list_rows_and_titles() {
    let mut app = open_app(vec![
        entry(1, "GitHub", "a", None),
        entry(2, "Old", "b", Some(1_700_000_000)),
        entry(3, "Mail", "c", None),
    ]);
    assert_eq!(panels(&app), (Backdrop::Vault, Overlay::Nothing));
    let rows = vault_rows(&app);
    assert_eq!(rows.len(), 2);
    assert!(rows[0].selected && !rows[1].selected);
    assert_eq!(rows[0].label, "#1  ");
    assert_eq!(rows[1].title, "Mail");
    let title = vault_title(&app);
    assert_eq!(title.text, " Vault  2 active  /  1 deleted ");
    assert!(title.query.is_none());
    assert_eq!(vault_list_empty(&app), None);

    app.handle_key(key(KeyCode::Char('/')), 0);
    app.handle_key(key(KeyCode::Char('z')), 0);
    let title = vault_title(&app);
    assert_eq!(title.text, " Vault  0/2 match  /  1 deleted  |  Search: ");
    assert_eq!(title.query.as_deref(), Some("z"));
    assert_eq!(vault_list_empty(&app), Some(EmptyList::NoMatch));
    assert_eq!(footer_keys(&app), "  Search typing   Enter Keep filter   Esc Clear   ↑↓ Select");

    app.handle_key(key(KeyCode::Esc), 0);
    app.handle_key(key(KeyCode::Tab), 0);
    assert_eq!(panels(&app), (Backdrop::RecentlyDeleted, Overlay::Nothing));
    let deleted = deleted_rows_of(&app);
    assert_eq!(deleted.len(), 1);
    assert_eq!(deleted[0].label, "#2  ");
    assert_eq!(deleted_title(&app), " Recently Deleted  1 item(s) ");
    assert_eq!(empty_prompt(&app), "Permanently delete all 1 recoverable item(s)?");
    app.handle_key(key(KeyCode::Char('d')), 0);
    assert_eq!(panels(&app), (Backdrop::RecentlyDeleted, Overlay::DeleteForever));
    assert_eq!(footer_keys(&app), "  Enter/y Delete forever   Esc/n Cancel");
}

#[test]
fn an_empty_vault_says_so() {
    let app = open_app(vec![]);
    assert_eq!(vault_list_empty(&app), Some(EmptyList::NoEntries));
    assert!(vault_rows(&app).is_empty());
}

#[test]
fn details_hide_the_password() {
    let shown = entry_details(&entry(7, "Bank", "hunter2", None));
    assert_eq!(shown.title, "Bank");
    assert_eq!(shown.username, "user7");
    assert_eq!(shown.password, "•••••••");
    assert_eq!(shown.url, "https://example.test");
}

#[test]
fn vault_info_describes_the_file() {
    let app = open_app(vec![]);
    let lines = vault_info(&app, "/tmp/v.vault");
    assert_eq!(
        lines,
        vec![
            "Format      BRPASS01 / payload v2".to_string(),
            "KDF         Argon2id  m=8192 KiB  t=1  p=1".to_string(),
            "Cipher      XChaCha20-Poly1305".to_string(),
            "Created     111".to_string(),
            "Updated     222".to_string(),
            "Vault file  /tmp/v.vault".to_string(),
            "Auto-lock   300 seconds inactivity".to_string(),
        ]
    );
    assert!(vault_info(&App::new(false, None, None, false), "x").is_empty());
}

#[test]
fn small_texts() {
    assert_eq!(auto_lock_description(None), "Disabled");
    assert_eq!(auto_lock_description(Some(15)), "15 seconds inactivity");
    assert_eq!(deleted_at_text(None), "Unknown");
    assert_eq!(deleted_at_text(Some(0)), "1970-01-01 00:00:00 UTC");
    assert_eq!(move_prompt("Mail"), "Move \"Mail\" out of the active vault?");
    assert_eq!(delete_forever_prompt("Mail"), "Permanently delete \"Mail\"?");
    assert_eq!(form_texts(Mode::AddEntry).unwrap().0, " Add password ");
    assert!(form_texts(Mode::Unlock).is_none());
    let app = App::new(true, None, None, false);
    assert_eq!(footer_status(&app), " Encrypted vault found. Enter the master password. ");
}

fn screen_text(app: &App) -> Vec<String> {
    let mut out = Vec::new();
    let title = vault_title(app);
    out.push(title.text);
    out.push(format!("{:?}", title.query));
    out.push(format!("{:?}", vault_list_empty(app)));
    for row in vault_rows(app) {
        out.push(format!("{} {} {}", row.selected, row.label, row.title));
    }
    if let Some(e) = app.selected_entry() {
        let d = entry_details(e);
        out.extend([d.title, d.username, d.password, d.url, d.notes]);
    }
    out.extend(vault_info(app, "/tmp/v"));
    out.push(deleted_title(app));
    for row in deleted_rows_of(app) {
        out.push(format!("{} {} {}", row.selected, row.label, row.title));
    }
    if let Some(e) = app.selected_deleted_entry() {
        let d = entry_details(e);
        out.extend([d.title, d.username, d.password, d.url, d.notes, deleted_at_text(e.deleted_unix)]);
    }
    out.push(footer_keys(app).to_string());
    out
}

#[test]
fn screens_do_not_depend_on_password_contents() {
    let a = open_app(vec![entry(1, "Mail", "hunter22", None), entry(2, "Bank", "secret", Some(5))]);
    let b = open_app(vec![entry(1, "Mail", "zzzzzzzz", None), entry(2, "Bank", "qwerty", Some(5))]);
    let shown_a = screen_text(&a);
    assert_eq!(shown_a, screen_text(&b));
    assert!(shown_a.iter().any(|line| line == "••••••••"));
    assert!(!shown_a.iter().any(|line| line.contains("hunter22") || line.contains("secret")));

    let mut a = a;
    let mut b = b;
    a.handle_key(key(KeyCode::Tab), 0);
    b.handle_key(key(KeyCode::Tab), 0);
    let deleted_a = screen_text(&a);
    assert_eq!(deleted_a, screen_text(&b));
    assert!(deleted_a.iter().any(|line| line == "••••••"));
}

#[test]
fn an_application_can_be_wiped_on_exit() {
    let app = open_app(vec![entry(1, "Mail", "hunter22", None)]);
    assert!(app.vault().is_some());
    app.wipe();
}
