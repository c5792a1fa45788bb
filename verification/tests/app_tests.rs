use barepass::app::{
    is_clear_input_shortcut, is_delete_word_shortcut, Action, App, ClipboardTick, CopyLabel, CopyOutcome,
    CreationCheck, KeyCode, KeyInput, Mode, UnlockOutcome,
};
use barepass::crypto::{derive_key, encrypt, KdfConfig, NONCE_LEN, SALT_LEN};
use barepass::model::{PasswordEntry, Vault, CURRENT_VAULT_FORMAT_VERSION};
use barepass::storage::{build_header, decrypt_vault_blob, UnlockedVault};

const NOW: u64 = 1_700_000_000;

fn key(code: KeyCode) -> KeyInput {
    KeyInput { code, control: false, alt: false, super_key: false, release: false }
}

fn ctrl(code: KeyCode) -> KeyInput {
    KeyInput { code, control: true, alt: false, super_key: false, release: false }
}

fn press(app: &mut App, code: KeyCode) -> Action {
    app.handle_key(key(code), NOW)
}

fn type_text(app: &mut App, text: &str) {
    for c in text.chars() {
        assert_eq!(press(app, KeyCode::Char(c)), Action::Idle);
    }
}

fn entry(id: u64, title: &str, username: &str, password: &str, deleted_unix: Option<u64>) -> PasswordEntry {
    PasswordEntry {
        id,
        title: title.into(),
        username: username.into(),
        password: password.into(),
        url: String::new(),
        notes: String::new(),
        deleted_unix,
    }
}

/// An unlocked vault holding `data`, opened from a blob sealed under a cheap
/// key-derivation setting so that tests stay fast.
fn unlocked(data: Vault) -> UnlockedVault {
    let kdf = KdfConfig { memory_kib: 8192, iterations: 1, parallelism: 1 };
    let salt = [5u8; SALT_LEN];
    let nonce = [6u8; NONCE_LEN];
    let key = derive_key("test master password", &salt, kdf).unwrap();
    let header = build_header(kdf, &salt, &nonce);
    let sealed = encrypt(&key, &nonce, b"{}", &header).unwrap();
    let mut blob = header.clone();
    blob.extend_from_slice(&sealed);
    decrypt_vault_blob(&blob, "test master password").unwrap().into_unlocked(data)
}

fn vault_with(entries: Vec<PasswordEntry>) -> Vault {
    Vault {
        format_version: CURRENT_VAULT_FORMAT_VERSION,
        created_unix: 10,
        updated_unix: 20,
        entries,
        notes: Vec::new(),
    }
}

fn open_app(entries: Vec<PasswordEntry>) -> App {
    let mut app = App::new(true, None, Some(300), false);
    assert_eq!(press(&mut app, KeyCode::Enter), Action::UnlockVault);
    assert_eq!(app.unlock_finished(UnlockOutcome::Opened(unlocked(vault_with(entries)))), Action::Unlocked);
    app
}

fn ids(app: &App) -> Vec<u64> {
    app.vault().unwrap().data().entries.iter().map(|e| e.id).collect()
}

#[test]
fn delete_word_shortcut_accepts_common_terminal_encodings() {
    let backspace = ctrl(KeyCode::Backspace);
    let ctrl_h = ctrl(KeyCode::Char('h'));
    let ctrl_w = ctrl(KeyCode::Char('w'));
    let raw_backspace = key(KeyCode::Char('\u{8}'));
    let raw_ctrl_w = key(KeyCode::Char('\u{17}'));

    assert!(is_delete_word_shortcut(&backspace, false));
    assert!(is_delete_word_shortcut(&ctrl_h, false));
    assert!(is_delete_word_shortcut(&ctrl_w, false));
    assert!(is_delete_word_shortcut(&raw_backspace, false));
    assert!(is_delete_word_shortcut(&raw_ctrl_w, false));
}

#[test]
fn delete_word_shortcut_does_not_capture_plain_backspace() {
    let plain_backspace = key(KeyCode::Backspace);

    assert!(!is_delete_word_shortcut(&plain_backspace, false));
}

#[test]
fn macos_shortcuts_use_option_and_command() {
    let option_backspace = KeyInput { alt: true, ..key(KeyCode::Backspace) };
    let command_backspace = KeyInput { super_key: true, ..key(KeyCode::Backspace) };
    assert!(is_delete_word_shortcut(&option_backspace, true));
    assert!(!is_delete_word_shortcut(&ctrl(KeyCode::Char('w')), true));
    assert!(is_clear_input_shortcut(&command_backspace, true));
    assert!(!is_clear_input_shortcut(&ctrl(KeyCode::Delete), true));
    assert!(is_clear_input_shortcut(&ctrl(KeyCode::Delete), false));
}

#[test]
fn start_screen_depends_on_an_existing_vault() {
    let fresh = App::new(false, None, Some(300), false);
    assert_eq!(fresh.mode(), Mode::Create);
    assert_eq!(fresh.status(), "No vault exists yet. Create a master password.");
    let existing = App::new(true, Some("Migrated.".into()), None, false);
    assert_eq!(existing.mode(), Mode::Unlock);
    assert_eq!(existing.status(), "Migrated. Encrypted vault found. Enter the master password.");
    assert_eq!(existing.auto_lock_seconds(), None);
}

#[test]
fn short_and_mismatched_master_passwords_start_over() {
    let mut app = App::new(false, None, Some(300), false);
    type_text(&mut app, "short");
    assert_eq!(app.input_len(), 5);
    assert_eq!(press(&mut app, KeyCode::Enter), Action::Idle);
    assert_eq!(app.mode(), Mode::Create);
    assert_eq!(app.status(), "Use at least 12 characters for the master password.");

    type_text(&mut app, " and longer now");
    assert_eq!(press(&mut app, KeyCode::Enter), Action::Idle);
    assert_eq!(app.mode(), Mode::Confirm);
    assert_eq!(app.input_len(), 0);
    type_text(&mut app, "something else entirely");
    assert_eq!(press(&mut app, KeyCode::Enter), Action::Idle);
    assert_eq!(app.mode(), Mode::Create);
    assert_eq!(app.status(), "Passwords did not match. Start again.");
}

#[test]
fn matching_confirmation_asks_to_create_and_a_lock_failure_is_reported() {
    let mut app = App::new(false, None, Some(300), false);
    type_text(&mut app, "correct horse battery");
    press(&mut app, KeyCode::Enter);
    type_text(&mut app, "correct horse battery");
    assert_eq!(press(&mut app, KeyCode::Enter), Action::CreateVault);
    assert_eq!(
        app.creation_checked(CreationCheck::LockFailed("Vault is already open in another BarePass process.".into()), NOW),
        Action::Idle
    );
    assert_eq!(app.status(), "Vault is already open in another BarePass process.");
    assert_eq!(app.input_len(), 0);

    let mut app = App::new(false, None, Some(300), false);
    type_text(&mut app, "correct horse battery");
    press(&mut app, KeyCode::Enter);
    type_text(&mut app, "correct horse battery");
    press(&mut app, KeyCode::Enter);
    assert_eq!(app.creation_checked(CreationCheck::VaultExists, NOW), Action::Idle);
    assert_eq!(app.mode(), Mode::Unlock);
}

#[test]
fn escape_on_confirm_restarts_creation_and_elsewhere_quits() {
    let mut app = App::new(false, None, Some(300), false);
    type_text(&mut app, "correct horse battery");
    press(&mut app, KeyCode::Enter);
    press(&mut app, KeyCode::Esc);
    assert_eq!(app.mode(), Mode::Create);
    assert_eq!(app.status(), "Master password creation cancelled. Start again.");
    assert!(!app.should_quit());
    press(&mut app, KeyCode::Esc);
    assert!(app.should_quit());
}

#[test]
fn failed_unlock_wipes_the_typed_password() {
    let mut app = App::new(true, None, Some(300), false);
    type_text(&mut app, "wrong password");
    assert_eq!(press(&mut app, KeyCode::Enter), Action::UnlockVault);
    assert_eq!(app.secret_input(), "wrong password");
    assert_eq!(app.unlock_finished(UnlockOutcome::Failed), Action::Idle);
    assert_eq!(app.input_len(), 0);
    assert_eq!(app.status(), "Unlock failed: wrong master password or damaged vault.");
    assert_eq!(app.mode(), Mode::Unlock);
}

#[test]
fn adding_an_entry_saves_and_a_failed_save_takes_it_back() {
    let mut app = open_app(vec![entry(4, "Mail", "me", "pw", None)]);
    assert_eq!(app.mode(), Mode::Vault);
    press(&mut app, KeyCode::Char('a'));
    assert_eq!(app.mode(), Mode::AddEntry);
    type_text(&mut app, "  Bank  ");
    press(&mut app, KeyCode::Tab);
    type_text(&mut app, "alice");
    assert_eq!(app.handle_key(ctrl(KeyCode::Char('s')), NOW), Action::SaveVault);
    assert_eq!(ids(&app), vec![4, 5]);
    assert_eq!(app.vault().unwrap().data().entries[1].title, "Bank");
    assert_eq!(app.vault().unwrap().data().updated_unix, NOW);

    assert_eq!(app.save_finished(Err("disk full".into())), Action::Idle);
    assert_eq!(ids(&app), vec![4]);
    assert_eq!(app.vault().unwrap().data().updated_unix, 20);
    assert_eq!(app.status(), "Could not save password entry: disk full");
    assert_eq!(app.mode(), Mode::AddEntry);

    assert_eq!(app.handle_key(ctrl(KeyCode::Char('s')), NOW), Action::SaveVault);
    assert_eq!(app.save_finished(Ok(())), Action::Idle);
    assert_eq!(app.mode(), Mode::Vault);
    assert_eq!(app.status(), "Password entry #5 saved to the encrypted vault.");
    assert_eq!(app.selected_index(), 1);
}

#[test]
fn a_blank_title_is_refused() {
    let mut app = open_app(vec![]);
    press(&mut app, KeyCode::Char('a'));
    type_text(&mut app, "   ");
    press(&mut app, KeyCode::Tab);
    assert_eq!(app.handle_key(ctrl(KeyCode::Char('s')), NOW), Action::Idle);
    assert_eq!(app.status(), "A password entry needs a title.");
    assert!(app.add_form().field() == barepass::form::AddField::Title);
}

#[test]
fn editing_and_rolling_back_an_edit() {
    let mut app = open_app(vec![entry(1, "Old", "user", "secret", None)]);
    press(&mut app, KeyCode::Char('e'));
    assert_eq!(app.mode(), Mode::EditEntry);
    assert_eq!(app.status(), "Editing password entry #1.");
    app.handle_key(ctrl(KeyCode::Delete), NOW);
    type_text(&mut app, "New");
    assert_eq!(app.handle_key(ctrl(KeyCode::Char('s')), NOW), Action::SaveVault);
    assert_eq!(app.vault().unwrap().data().entries[0].title, "New");
    app.save_finished(Err("read-only".into()));
    assert_eq!(app.vault().unwrap().data().entries[0].title, "Old");
    assert_eq!(app.vault().unwrap().data().entries[0].password, "secret");
    assert_eq!(app.status(), "Could not save edited password entry: read-only");
    app.handle_key(ctrl(KeyCode::Char('s')), NOW);
    app.save_finished(Ok(()));
    assert_eq!(app.status(), "Password entry #1 updated in the encrypted vault.");
    assert_eq!(app.vault().unwrap().data().entries[0].title, "New");
}

#[test]
fn delete_restore_and_purge_flow() {
    let mut app = open_app(vec![entry(1, "A", "a", "x", None), entry(2, "B", "b", "y", None)]);
    press(&mut app, KeyCode::Down);
    press(&mut app, KeyCode::Char('d'));
    assert_eq!(app.mode(), Mode::ConfirmDelete);
    assert_eq!(app.status(), "Confirm moving password entry #2 to Recently Deleted.");
    assert_eq!(press(&mut app, KeyCode::Char('y')), Action::SaveVault);
    assert_eq!(app.vault().unwrap().data().entries[1].deleted_unix, Some(NOW));
    app.save_finished(Ok(()));
    assert_eq!(app.status(), "Password entry #2 moved to Recently Deleted.");
    assert_eq!(app.selected_index(), 0);
    assert_eq!(app.filtered_active_count(), 1);

    press(&mut app, KeyCode::Tab);
    assert_eq!(app.mode(), Mode::RecentlyDeleted);
    assert_eq!(app.status(), "Recently Deleted contains 1 item(s).");
    assert_eq!(press(&mut app, KeyCode::Char('r')), Action::SaveVault);
    app.save_finished(Err("no space".into()));
    assert_eq!(app.vault().unwrap().data().entries[1].deleted_unix, Some(NOW));
    assert_eq!(app.status(), "Could not save restored password entry: no space");

    press(&mut app, KeyCode::Char('d'));
    assert_eq!(app.status(), "Confirm permanently deleting password entry #2. This cannot be undone.");
    assert_eq!(press(&mut app, KeyCode::Enter), Action::SaveVault);
    assert_eq!(ids(&app), vec![1]);
    app.save_finished(Err("no space".into()));
    assert_eq!(ids(&app), vec![1, 2]);
    assert_eq!(app.mode(), Mode::RecentlyDeleted);

    press(&mut app, KeyCode::Char('x'));
    assert_eq!(app.status(), "Confirm permanently deleting all 1 item(s) from Recently Deleted.");
    assert_eq!(press(&mut app, KeyCode::Char('Y')), Action::SaveVault);
    app.save_finished(Ok(()));
    assert_eq!(ids(&app), vec![1]);
    assert_eq!(app.status(), "Permanently deleted 1 item(s) from Recently Deleted.");
    press(&mut app, KeyCode::Char('x'));
    assert_eq!(app.status(), "Recently Deleted is already empty.");
}

#[test]
fn restoring_selects_the_restored_entry() {
    let mut app = open_app(vec![entry(1, "A", "a", "x", None), entry(2, "B", "b", "y", Some(5))]);
    press(&mut app, KeyCode::Tab);
    assert_eq!(press(&mut app, KeyCode::Char('R')), Action::SaveVault);
    app.save_finished(Ok(()));
    assert_eq!(app.selected_index(), 1);
    assert_eq!(app.status(), "Password entry #2 restored. Tab or Esc returns to the active vault.");
    assert_eq!(app.deleted_count(), 0);
}

#[test]
fn cancelling_a_deletion_goes_back() {
    let mut app = open_app(vec![entry(1, "A", "a", "x", None)]);
    press(&mut app, KeyCode::Char('d'));
    press(&mut app, KeyCode::Char('n'));
    assert_eq!(app.mode(), Mode::Vault);
    assert_eq!(app.status(), "Delete cancelled.");
}

#[test]
fn search_filters_and_counts() {
    let mut app = open_app(vec![
        entry(1, "GitHub", "a", "x", None),
        entry(2, "GitLab", "b", "y", None),
        entry(3, "Mail", "c", "z", None),
    ]);
    press(&mut app, KeyCode::Char('/'));
    assert!(app.search_editing());
    assert_eq!(app.status(), "Search active. 3 password entry(s) available.");
    type_text(&mut app, "git");
    assert_eq!(app.status(), "Search filter matches 2 password entry(s).");
    press(&mut app, KeyCode::Down);
    assert_eq!(app.selected_entry().unwrap().id, 2);
    type_text(&mut app, "h");
    assert_eq!(app.selected_index(), 0);
    assert_eq!(app.selected_entry().unwrap().id, 1);
    press(&mut app, KeyCode::Enter);
    assert!(!app.search_editing());
    press(&mut app, KeyCode::Esc);
    assert_eq!(app.search_query(), "");
    assert_eq!(app.status(), "Search cleared.");
}

#[test]
fn copying_asks_for_the_selected_field() {
    let mut app = open_app(vec![entry(1, "A", "", "pw", None)]);
    assert_eq!(press(&mut app, KeyCode::Char('u')), Action::Idle);
    assert_eq!(app.status(), "The selected password entry has no username to copy.");
    assert_eq!(press(&mut app, KeyCode::Char('p')), Action::Copy(CopyLabel::Password));
    assert_eq!(app.clipboard_text(CopyLabel::Password), Some("pw"));
    app.copy_finished(CopyLabel::Password, CopyOutcome::Copied);
    assert_eq!(
        app.status(),
        "Password copied. BarePass will clear it after 30 seconds if the clipboard is unchanged."
    );
    app.copy_finished(CopyLabel::Username, CopyOutcome::Failed("busy".into()));
    assert_eq!(app.status(), "Could not copy Username: busy");
    app.copy_finished(CopyLabel::Username, CopyOutcome::Unavailable("no display".into()));
    assert_eq!(app.status(), "Clipboard unavailable: no display");
}

#[test]
fn locking_and_auto_locking_wipe_the_session() {
    let mut app = open_app(vec![entry(1, "A", "a", "x", None)]);
    assert_eq!(app.handle_tick(ClipboardTick::Idle, 299_000_000_000), Action::Idle);
    assert!(app.vault().is_some());
    assert_eq!(app.handle_tick(ClipboardTick::Cleared, 1), Action::Idle);
    assert_eq!(app.status(), "BarePass clipboard text cleared after 30 seconds.");
    assert_eq!(app.handle_tick(ClipboardTick::Idle, 300_000_000_000), Action::Locked);
    assert!(app.vault().is_none());
    assert_eq!(app.mode(), Mode::Unlock);
    assert_eq!(
        app.status(),
        "Vault auto-locked after 300 seconds of inactivity. Encryption key cleared from memory."
    );

    let mut app = open_app(vec![entry(1, "A", "a", "x", None)]);
    assert_eq!(press(&mut app, KeyCode::Char('l')), Action::Locked);
    assert!(app.vault().is_none());
    assert_eq!(app.status(), "Vault locked. Encryption key cleared from memory.");
}

#[test]
fn ctrl_c_quits_and_releases_are_ignored() {
    let mut app = open_app(vec![]);
    let release = KeyInput { release: true, ..key(KeyCode::Char('q')) };
    assert_eq!(app.handle_key(release, NOW), Action::Idle);
    assert!(!app.should_quit());
    app.handle_key(ctrl(KeyCode::Char('c')), NOW);
    assert!(app.should_quit());
}

#[test]
fn search_matching_ignores_the_password() {
    let mut app = open_app(vec![entry(1, "Bank", "alice", "needle", None)]);
    press(&mut app, KeyCode::Char('/'));
    type_text(&mut app, "needle");
    let e = entry(2, "Other", "bob", "needle", None);
    assert!(!app.entry_matches_search(&e));
    assert_eq!(app.filtered_active_count(), 0);
    assert!(app.selected_entry().is_none());
}
