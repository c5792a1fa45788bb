//! The application state machine behind the terminal screens: which screen
//! is open, what has been typed, the unlocked vault, and what each key does.
//!
//! Work that needs the outside world (files, locks, the clipboard) is asked
//! for with an [`Action`]; its outcome is handed back to the matching method
//! (`creation_checked`, `unlock_finished`, `save_finished`, `copy_finished`),
//! which decides what happens next.
use vstd::prelude::*;
use vstd::utf8::encode_utf8;

use crate::crypto::{argon2id_key, KdfConfig, SALT_LEN};
use crate::form::{
    clear_text_input, delete_previous_word, empty_form, field_text, next_of, previous_of, with_field_text,
    without_previous_word, AddEntryForm, AddField, FormView,
};
use crate::listing::{
    count_listed, count_listed_to, find_listed, lemma_list_len_push, lemma_list_len_remove, lemma_list_len_update,
    lemma_purge_keeps_active_rows, list_len, listed_count, nth_listed,
};
use crate::model::{
    deleted_entry_not_found_text, entry_not_found_text, find_entry, entry_matches, first_match, ids_distinct, lemma_first_match_found, lemma_first_match_in_range,
    lemma_first_match_unique,
    lemma_reinsert_restores, max_id, reinsert_removed, removed_desc, retained, PasswordEntry,
    SecureNote, Vault, CURRENT_VAULT_FORMAT_VERSION,
};
use crate::session::inactivity_expired;
use crate::storage::{
    create_unlocked_vault, current_kdf_spec, is_derivation_failure, is_random_failure, UnlockedVault,
};
use crate::text::{
    decimal_text, message_with_number, message_with_text, str_trim, string_clear, string_pop, string_push, trimmed,
    zeroize_string,
};

verus! {

/// The shortest master password accepted for a new vault, in characters.
pub const MIN_MASTER_PASSWORD_CHARS: usize = 12;

/// How long copied text stays on the clipboard before it is cleared.
pub const CLIPBOARD_CLEAR_SECS: u64 = 30;

/// The screen the application shows.
#[derive(Clone, Copy, Debug, PartialEq, Eq, Structural)]
pub enum Mode {
    Create,
    Confirm,
    Unlock,
    Vault,
    AddEntry,
    EditEntry,
    ConfirmDelete,
    RecentlyDeleted,
}

/// The key of a key event.
#[derive(Clone, Copy, Debug, PartialEq, Eq, Structural)]
pub enum KeyCode {
    Char(char),
    Backspace,
    Delete,
    Enter,
    Esc,
    Tab,
    BackTab,
    Up,
    Down,
    Other,
}

/// A key event: the key, the modifiers held, and whether it is the key's
/// release.
#[derive(Clone, Copy, Debug, PartialEq, Eq, Structural)]
pub struct KeyInput {
    pub code: KeyCode,
    pub control: bool,
    pub alt: bool,
    pub super_key: bool,
    pub release: bool,
}

/// The delete-previous-word shortcut: Option+Backspace on macOS; elsewhere
/// Ctrl+Backspace, Ctrl+H, Ctrl+W, or the raw backspace and Ctrl+W
/// characters some terminals send for them.
pub open spec fn delete_word_shortcut(key: KeyInput, macos: bool) -> bool {
    if macos {
        key.code == KeyCode::Backspace && key.alt
    } else {
        ||| key.control && (key.code == KeyCode::Backspace || key.code == KeyCode::Char('h') || key.code
            == KeyCode::Char('w'))
        ||| key.code == KeyCode::Char('\u{8}')
        ||| key.code == KeyCode::Char('\u{17}')
    }
}

/// The clear-input shortcut: Command+Backspace on macOS, Ctrl+Delete
/// elsewhere.
pub open spec fn clear_input_shortcut(key: KeyInput, macos: bool) -> bool {
    if macos {
        key.code == KeyCode::Backspace && key.super_key
    } else {
        key.code == KeyCode::Delete && key.control
    }
}

/// Whether a key deletes the previous word.
pub fn is_delete_word_shortcut(key: &KeyInput, macos: bool) -> (b: bool)
    ensures
        b == delete_word_shortcut(*key, macos),
{
    if macos {
        key.code == KeyCode::Backspace && key.alt
    } else {
        (key.control && (key.code == KeyCode::Backspace || key.code == KeyCode::Char('h') || key.code
            == KeyCode::Char('w'))) || key.code == KeyCode::Char('\u{8}') || key.code == KeyCode::Char(
            '\u{17}',
        )
    }
}

/// Whether a key clears the whole input.
pub fn is_clear_input_shortcut(key: &KeyInput, macos: bool) -> (b: bool)
    ensures
        b == clear_input_shortcut(*key, macos),
{
    if macos {
        key.code == KeyCode::Backspace && key.super_key
    } else {
        key.code == KeyCode::Delete && key.control
    }
}

/// Whether a key types its character: a character key without Ctrl or Alt.
pub open spec fn typed_char(key: KeyInput) -> Option<char> {
    match key.code {
        KeyCode::Char(c) => if !key.control && !key.alt {
            Some(c)
        } else {
            None
        },
        _ => None,
    }
}

/// Which field of the selected entry is copied.
#[derive(Clone, Copy, Debug, PartialEq, Eq, Structural)]
pub enum CopyLabel {
    Username,
    Password,
}

/// What the application asks its host to do after a step.
#[derive(Clone, Copy, Debug, PartialEq, Eq, Structural)]
pub enum Action {
    /// Nothing.
    Idle,
    /// Take the vault lock, check that no vault file exists, and report
    /// with `creation_checked`.
    CreateVault,
    /// Take the vault lock, read and open the vault file with the typed
    /// master password (`secret_input`), and report with `unlock_finished`.
    UnlockVault,
    /// Encrypt and write `vault_to_save`, and report with `save_finished`.
    SaveVault,
    /// Copy `clipboard_text` of this field, and report with `copy_finished`.
    Copy(CopyLabel),
    /// The vault was locked: clear the clipboard text it copied, release the vault
    /// lock, and restart the inactivity timer.
    Locked,
    /// A vault was opened or created: keep the vault lock and restart the
    /// inactivity timer.
    Unlocked,
}

/// What the host found when asked to create a vault.
pub enum CreationCheck {
    /// The vault lock could not be taken, for this reason.
    LockFailed(String),
    /// A vault file appeared in the meantime.
    VaultExists,
    /// The lock is held and no vault file exists.
    Ready,
}

/// What the host found when asked to unlock the vault.
pub enum UnlockOutcome {
    /// The vault lock could not be taken, for this reason.
    LockFailed(String),
    /// The vault file opened with the typed master password.
    Opened(UnlockedVault),
    /// The vault file could not be read or opened.
    Failed,
}

/// What happened when text was copied.
pub enum CopyOutcome {
    Copied,
    /// The system clipboard could not be reached, for this reason.
    Unavailable(String),
    /// Setting the clipboard text failed, for this reason.
    Failed(String),
}

/// What the clipboard timer did since the last tick.
pub enum ClipboardTick {
    Idle,
    /// Copied text was cleared after its time ran out.
    Cleared,
    /// Clearing copied text failed, for this reason.
    Failed(String),
}

/// A change made to the vault that waits for its save, with what is needed
/// to take it back if the save fails.
pub enum PendingChange {
    Added { id: u64, previous_updated: u64 },
    Edited {
        id: u64,
        title: String,
        username: String,
        password: String,
        url: String,
        notes: String,
        previous_updated: u64,
    },
    Deleted { id: u64, previous_deleted: Option<u64>, previous_updated: u64 },
    Restored { id: u64, previous_deleted: Option<u64>, previous_updated: u64 },
    Purged { id: u64, index: usize, entry: PasswordEntry, previous_updated: u64 },
    Emptied { removed: Vec<(usize, PasswordEntry)>, previous_updated: u64 },
}

/// The key material of an unlocked vault: key, KDF settings and salt.
pub type VaultKeys = (Seq<u8>, KdfConfig, Seq<u8>);

/// The application state.
pub struct App {
    mode: Mode,
    input: String,
    pending_password: String,
    vault: Option<UnlockedVault>,
    creating: Option<UnlockedVault>,
    pending: Option<PendingChange>,
    selected: usize,
    deleted_selected: usize,
    form: AddEntryForm,
    editing_entry_id: Option<u64>,
    permanent_delete_entry_id: Option<u64>,
    empty_confirmation: bool,
    status: String,
    search_query: String,
    search_editing: bool,
    auto_lock_secs: Option<u64>,
    macos: bool,
    should_quit: bool,
}

/// The abstract application state.
pub struct AppView {
    pub mode: Mode,
    /// The master password being typed.
    pub input: Seq<char>,
    /// The first entry of a new master password, awaiting confirmation.
    pub pending_password: Seq<char>,
    /// The unlocked vault's data.
    pub vault: Option<VaultData>,
    pub vault_keys: Option<VaultKeys>,
    /// A newly created vault waiting for its first save.
    pub creating: Option<VaultData>,
    pub creating_keys: Option<VaultKeys>,
    pub pending: Option<PendingChange>,
    /// The selected row of the active list.
    pub selected: usize,
    /// The selected row of Recently Deleted.
    pub deleted_selected: usize,
    pub form: FormView,
    pub editing_entry_id: Option<u64>,
    pub permanent_delete_entry_id: Option<u64>,
    pub empty_confirmation: bool,
    pub status: Seq<char>,
    pub search_query: Seq<char>,
    pub search_editing: bool,
    pub auto_lock_secs: Option<u64>,
    pub macos: bool,
    pub should_quit: bool,
}

/// The contents of a vault, as sequences.
pub struct VaultData {
    pub format_version: u32,
    pub created_unix: u64,
    pub updated_unix: u64,
    pub entries: Seq<PasswordEntry>,
    pub notes: Seq<SecureNote>,
}

/// The contents of a vault.
pub open spec fn vault_data(d: Vault) -> VaultData {
    VaultData {
        format_version: d.format_version,
        created_unix: d.created_unix,
        updated_unix: d.updated_unix,
        entries: d.entries@,
        notes: d.notes@,
    }
}

/// The data of an optional unlocked vault.
pub open spec fn data_of(u: Option<UnlockedVault>) -> Option<VaultData> {
    match u {
        Some(u) => Some(vault_data(u.spec_data())),
        None => None,
    }
}

/// The key material of an optional unlocked vault.
pub open spec fn keys_of(u: Option<UnlockedVault>) -> Option<VaultKeys> {
    match u {
        Some(u) => Some((u.spec_key(), u.spec_kdf(), u.spec_salt())),
        None => None,
    }
}

impl View for App {
    type V = AppView;

    closed spec fn view(&self) -> AppView {
        AppView {
            mode: self.mode,
            input: self.input@,
            pending_password: self.pending_password@,
            vault: data_of(self.vault),
            vault_keys: keys_of(self.vault),
            creating: data_of(self.creating),
            creating_keys: keys_of(self.creating),
            pending: self.pending,
            selected: self.selected,
            deleted_selected: self.deleted_selected,
            form: self.form@,
            editing_entry_id: self.editing_entry_id,
            permanent_delete_entry_id: self.permanent_delete_entry_id,
            empty_confirmation: self.empty_confirmation,
            status: self.status@,
            search_query: self.search_query@,
            search_editing: self.search_editing,
            auto_lock_secs: self.auto_lock_secs,
            macos: self.macos,
            should_quit: self.should_quit,
        }
    }
}

/// How many rows the active list shows.
pub open spec fn shown_rows(v: AppView) -> nat {
    match v.vault {
        Some(d) => list_len(d.entries, v.search_query, false),
        None => 0,
    }
}

/// How many active entries the vault holds.
pub open spec fn active_rows(v: AppView) -> nat {
    match v.vault {
        Some(d) => list_len(d.entries, Seq::empty(), false),
        None => 0,
    }
}

/// How many rows Recently Deleted shows.
pub open spec fn deleted_rows(v: AppView) -> nat {
    match v.vault {
        Some(d) => list_len(d.entries, Seq::empty(), true),
        None => 0,
    }
}

/// The vault index of the selected active row, or -1 when nothing is
/// selected.
pub open spec fn selected_row(v: AppView) -> int {
    match v.vault {
        Some(d) => nth_listed(d.entries, v.search_query, false, v.selected as int),
        None => -1,
    }
}

/// The vault index of the selected Recently Deleted row, or -1.
pub open spec fn selected_deleted_row(v: AppView) -> int {
    match v.vault {
        Some(d) => nth_listed(d.entries, Seq::empty(), true, v.deleted_selected as int),
        None => -1,
    }
}

/// The state of a freshly started application.
pub open spec fn started(vault_exists: bool, status: Seq<char>, auto_lock_secs: Option<u64>, macos: bool) -> AppView {
    AppView {
        mode: if vault_exists {
            Mode::Unlock
        } else {
            Mode::Create
        },
        input: Seq::empty(),
        pending_password: Seq::empty(),
        vault: None,
        vault_keys: None,
        creating: None,
        creating_keys: None,
        pending: None,
        selected: 0,
        deleted_selected: 0,
        form: empty_form(),
        editing_entry_id: None,
        permanent_delete_entry_id: None,
        empty_confirmation: false,
        status,
        search_query: Seq::empty(),
        search_editing: false,
        auto_lock_secs,
        macos,
        should_quit: false,
    }
}

/// The greeting for the first screen.
pub open spec fn start_status(vault_exists: bool) -> Seq<char> {
    if vault_exists {
        "Encrypted vault found. Enter the master password."@
    } else {
        "No vault exists yet. Create a master password."@
    }
}

/// The state after locking: no vault, key or pending change, every secret
/// buffer wiped, the unlock screen shown.
pub open spec fn locked(v: AppView) -> AppView {
    AppView {
        mode: Mode::Unlock,
        input: Seq::empty(),
        pending_password: Seq::empty(),
        vault: None,
        vault_keys: None,
        creating: None,
        creating_keys: None,
        pending: None,
        selected: 0,
        deleted_selected: 0,
        form: empty_form(),
        editing_entry_id: None,
        permanent_delete_entry_id: None,
        empty_confirmation: false,
        status: "Vault locked. Encryption key cleared from memory."@,
        search_query: Seq::empty(),
        search_editing: false,
        ..v
    }
}

/// The auto-lock message.
pub open spec fn auto_locked_status(seconds: u64) -> Seq<char> {
    "Vault auto-locked after "@ + decimal_text(seconds as nat)
        + " seconds of inactivity. Encryption key cleared from memory."@
}

/// The state after a clipboard timer report.
pub open spec fn after_clipboard_tick(v: AppView, tick: ClipboardTick) -> AppView {
    match tick {
        ClipboardTick::Idle => v,
        ClipboardTick::Cleared => AppView {
            status: "BarePass clipboard text cleared after 30 seconds."@,
            ..v
        },
        ClipboardTick::Failed(e) => AppView { status: "Could not auto-clear clipboard: "@ + e@, ..v },
    }
}

/// The name a copied field goes by in messages.
pub open spec fn label_text(label: CopyLabel) -> Seq<char> {
    match label {
        CopyLabel::Username => "Username"@,
        CopyLabel::Password => "Password"@,
    }
}

/// The message after a copy.
pub open spec fn copy_status(label: CopyLabel, outcome: CopyOutcome) -> Seq<char> {
    match outcome {
        CopyOutcome::Copied => label_text(label)
            + " copied. BarePass will clear it after 30 seconds if the clipboard is unchanged."@,
        CopyOutcome::Unavailable(e) => "Clipboard unavailable: "@ + e@,
        CopyOutcome::Failed(e) => "Could not copy "@ + label_text(label) + ": "@ + e@,
    }
}

/// The field of an entry that a copy takes.
pub open spec fn copied_field(e: PasswordEntry, label: CopyLabel) -> Seq<char> {
    match label {
        CopyLabel::Username => e.username@,
        CopyLabel::Password => e.password@,
    }
}

/// What asking to copy a field of the selected entry does: with a selected
/// entry whose field is not empty the copy is asked for; otherwise a message
/// says why not.
pub open spec fn copy_requested(v: AppView, label: CopyLabel) -> (AppView, Action) {
    let k = selected_row(v);
    if k == -1 {
        (AppView { status: "There is no password entry selected to copy from."@, ..v }, Action::Idle)
    } else if copied_field(v.vault.unwrap().entries[k], label).len() == 0 {
        (
            AppView {
                status: match label {
                    CopyLabel::Username => "The selected password entry has no username to copy."@,
                    CopyLabel::Password => "The selected password entry has no password to copy."@,
                },
                ..v
            },
            Action::Idle,
        )
    } else {
        (v, Action::Copy(label))
    }
}

/// The search status line: how many active entries the query leaves.
pub open spec fn search_status(query: Seq<char>, count: nat) -> Seq<char> {
    if query.len() == 0 {
        "Search active. "@ + decimal_text(count) + " password entry(s) available."@
    } else {
        "Search filter matches "@ + decimal_text(count) + " password entry(s)."@
    }
}

/// The state after the search query changed to `query`: the selection goes
/// back to the first row and the status counts the matches.
pub open spec fn searched(v: AppView, query: Seq<char>) -> AppView {
    let w = AppView { search_query: query, selected: 0, ..v };
    AppView { status: search_status(query, shown_rows(w)), ..w }
}

/// The state after the search is cleared.
pub open spec fn search_cleared(v: AppView) -> AppView {
    AppView {
        search_query: Seq::empty(),
        search_editing: false,
        selected: 0,
        status: "Search cleared."@,
        ..v
    }
}

/// The selection moved one row up, stopping at the top.
pub open spec fn moved_up(v: AppView) -> AppView {
    AppView { selected: if v.selected == 0 { 0 } else { (v.selected - 1) as usize }, ..v }
}

/// The selection moved one row down, stopping at the last row.
pub open spec fn moved_down(v: AppView) -> AppView {
    AppView {
        selected: if v.selected + 1 < shown_rows(v) {
            (v.selected + 1) as usize
        } else {
            v.selected
        },
        ..v
    }
}

/// The Recently Deleted selection moved one row up.
pub open spec fn deleted_moved_up(v: AppView) -> AppView {
    AppView {
        deleted_selected: if v.deleted_selected == 0 {
            0
        } else {
            (v.deleted_selected - 1) as usize
        },
        ..v
    }
}

/// The Recently Deleted selection moved one row down.
pub open spec fn deleted_moved_down(v: AppView) -> AppView {
    AppView {
        deleted_selected: if v.deleted_selected + 1 < deleted_rows(v) {
            (v.deleted_selected + 1) as usize
        } else {
            v.deleted_selected
        },
        ..v
    }
}

/// The selection pulled back onto the last row when it lies past it.
pub open spec fn clamped(v: AppView) -> AppView {
    AppView {
        selected: if v.selected >= shown_rows(v) {
            if shown_rows(v) == 0 {
                0
            } else {
                (shown_rows(v) - 1) as usize
            }
        } else {
            v.selected
        },
        ..v
    }
}


/// An empty vault in the current format, created and updated at `now`.
pub open spec fn fresh_vault(d: VaultData, now: u64) -> bool {
    &&& d.format_version == CURRENT_VAULT_FORMAT_VERSION
    &&& d.created_unix == now
    &&& d.updated_unix == now
    &&& d.entries.len() == 0
    &&& d.notes.len() == 0
}

/// The key derived from a typed master password.
pub open spec fn master_key(password: Seq<char>, salt: Seq<u8>, kdf: KdfConfig) -> Seq<u8> {
    argon2id_key(encode_utf8(password), salt, kdf.memory_kib, kdf.iterations, kdf.parallelism)
}

/// What submitting the master-password screen does: on the create screen a
/// password of at least 12 characters moves on to confirmation; on the
/// confirm screen a mismatch starts over and a match asks to create the
/// vault; on the unlock screen it asks to unlock.
pub open spec fn submitted(v: AppView) -> (AppView, Action) {
    match v.mode {
        Mode::Create => if v.input.len() < MIN_MASTER_PASSWORD_CHARS {
            (AppView { status: "Use at least 12 characters for the master password."@, ..v }, Action::Idle)
        } else {
            (
                AppView {
                    pending_password: v.input,
                    input: Seq::empty(),
                    mode: Mode::Confirm,
                    status: "Type the same master password again."@,
                    ..v
                },
                Action::Idle,
            )
        },
        Mode::Confirm => if v.input != v.pending_password {
            (
                AppView {
                    input: Seq::empty(),
                    pending_password: Seq::empty(),
                    mode: Mode::Create,
                    status: "Passwords did not match. Start again."@,
                    ..v
                },
                Action::Idle,
            )
        } else {
            (v, Action::CreateVault)
        },
        Mode::Unlock => (v, Action::UnlockVault),
        _ => (v, Action::Idle),
    }
}

/// What a key does on the master-password screens.
pub open spec fn secret_key_step(v: AppView, key: KeyInput) -> (AppView, Action) {
    if delete_word_shortcut(key, v.macos) {
        (AppView { input: without_previous_word(v.input), ..v }, Action::Idle)
    } else if clear_input_shortcut(key, v.macos) {
        (AppView { input: Seq::empty(), ..v }, Action::Idle)
    } else {
        match key.code {
            KeyCode::Enter => submitted(v),
            KeyCode::Backspace => (
                AppView {
                    input: if v.input.len() == 0 {
                        v.input
                    } else {
                        v.input.drop_last()
                    },
                    ..v
                },
                Action::Idle,
            ),
            KeyCode::Esc => if v.mode == Mode::Confirm {
                (
                    AppView {
                        input: Seq::empty(),
                        pending_password: Seq::empty(),
                        mode: Mode::Create,
                        status: "Master password creation cancelled. Start again."@,
                        ..v
                    },
                    Action::Idle,
                )
            } else {
                (AppView { should_quit: true, ..v }, Action::Idle)
            },
            _ => match typed_char(key) {
                Some(c) => (AppView { input: v.input.push(c), ..v }, Action::Idle),
                None => (v, Action::Idle),
            },
        }
    }
}

/// What the host's report on vault creation does, apart from the `Ready`
/// case, which derives a key.
pub open spec fn creation_refused(v: AppView, check: CreationCheck) -> AppView {
    match check {
        CreationCheck::LockFailed(e) => AppView {
            input: Seq::empty(),
            pending_password: Seq::empty(),
            status: e@,
            ..v
        },
        _ => AppView {
            input: Seq::empty(),
            pending_password: Seq::empty(),
            mode: Mode::Unlock,
            status: "A vault appeared while this BarePass process was creating one. Unlock it instead."@,
            ..v
        },
    }
}

/// What the host's report on unlocking does.
pub open spec fn unlock_reported(v: AppView, outcome: UnlockOutcome) -> (AppView, Action) {
    match outcome {
        UnlockOutcome::LockFailed(e) => (AppView { input: Seq::empty(), status: e@, ..v }, Action::Idle),
        UnlockOutcome::Opened(u) => (
            AppView {
                vault: Some(vault_data(u.spec_data())),
                vault_keys: Some((u.spec_key(), u.spec_kdf(), u.spec_salt())),
                input: Seq::empty(),
                pending_password: Seq::empty(),
                mode: Mode::Vault,
                status: "Vault unlocked successfully."@,
                ..v
            },
            Action::Unlocked,
        ),
        UnlockOutcome::Failed => (
            AppView {
                input: Seq::empty(),
                status: "Unlock failed: wrong master password or damaged vault."@,
                ..v
            },
            Action::Idle,
        ),
    }
}


/// The form filled with an entry's fields, focused on the title.
pub open spec fn form_of(e: PasswordEntry) -> FormView {
    FormView {
        field: AddField::Title,
        title: e.title@,
        username: e.username@,
        password: e.password@,
        url: e.url@,
        notes: e.notes@,
    }
}

/// The state after opening the add-entry form: the search is cleared and
/// the form emptied.
pub open spec fn add_opened(v: AppView) -> AppView {
    AppView {
        search_query: Seq::empty(),
        search_editing: false,
        selected: 0,
        form: empty_form(),
        editing_entry_id: None,
        mode: Mode::AddEntry,
        status: "Adding a new password entry."@,
        ..v
    }
}

/// The state after asking to edit the selected entry.
pub open spec fn edit_opened(v: AppView) -> AppView {
    if v.vault is None {
        AppView { status: "Vault is no longer unlocked."@, ..v }
    } else if selected_row(v) == -1 {
        AppView { status: "There is no password entry selected to edit."@, ..v }
    } else {
        let e = v.vault.unwrap().entries[selected_row(v)];
        AppView {
            form: form_of(e),
            editing_entry_id: Some(e.id),
            mode: Mode::EditEntry,
            status: "Editing password entry #"@ + decimal_text(e.id as nat) + "."@,
            ..v
        }
    }
}

/// The state after asking to delete the selected entry: a confirmation.
pub open spec fn delete_confirmation_opened(v: AppView) -> AppView {
    if selected_row(v) == -1 {
        AppView { status: "There is no password entry selected to delete."@, ..v }
    } else {
        let id = v.vault.unwrap().entries[selected_row(v)].id;
        AppView {
            empty_confirmation: false,
            permanent_delete_entry_id: None,
            mode: Mode::ConfirmDelete,
            status: "Confirm moving password entry #"@ + decimal_text(id as nat) + " to Recently Deleted."@,
            ..v
        }
    }
}

/// The state after opening Recently Deleted.
pub open spec fn recently_deleted_opened(v: AppView) -> AppView {
    let w = AppView {
        search_query: Seq::empty(),
        search_editing: false,
        selected: 0,
        deleted_selected: 0,
        mode: Mode::RecentlyDeleted,
        ..v
    };
    AppView {
        status: if deleted_rows(w) == 0 {
            "Recently Deleted is empty."@
        } else {
            "Recently Deleted contains "@ + decimal_text(deleted_rows(w)) + " item(s)."@
        },
        ..w
    }
}

/// The state after asking to permanently delete the selected deleted entry.
pub open spec fn permanent_confirmation_opened(v: AppView) -> AppView {
    if selected_deleted_row(v) == -1 {
        AppView { status: "There is no deleted password entry selected to permanently delete."@, ..v }
    } else {
        let id = v.vault.unwrap().entries[selected_deleted_row(v)].id;
        AppView {
            empty_confirmation: false,
            permanent_delete_entry_id: Some(id),
            mode: Mode::ConfirmDelete,
            status: "Confirm permanently deleting password entry #"@ + decimal_text(id as nat)
                + ". This cannot be undone."@,
            ..v
        }
    }
}

/// The state after asking to empty Recently Deleted.
pub open spec fn empty_confirmation_opened(v: AppView) -> AppView {
    if deleted_rows(v) == 0 {
        AppView { status: "Recently Deleted is already empty."@, ..v }
    } else {
        AppView {
            permanent_delete_entry_id: None,
            empty_confirmation: true,
            mode: Mode::ConfirmDelete,
            status: "Confirm permanently deleting all "@ + decimal_text(deleted_rows(v))
                + " item(s) from Recently Deleted."@,
            ..v
        }
    }
}

/// The state after the search status line is rewritten.
pub open spec fn search_status_updated(v: AppView) -> AppView {
    AppView { status: search_status(v.search_query, shown_rows(v)), ..v }
}

/// What a key does while the search query is being edited.
pub open spec fn search_key_step(v: AppView, key: KeyInput) -> AppView {
    if delete_word_shortcut(key, v.macos) {
        searched(v, without_previous_word(v.search_query))
    } else if clear_input_shortcut(key, v.macos) {
        searched(v, Seq::empty())
    } else {
        match key.code {
            KeyCode::Esc => search_cleared(v),
            KeyCode::Enter => search_status_updated(AppView { search_editing: false, ..v }),
            KeyCode::Up => moved_up(v),
            KeyCode::Down => moved_down(v),
            KeyCode::Backspace => searched(
                v,
                if v.search_query.len() == 0 {
                    v.search_query
                } else {
                    v.search_query.drop_last()
                },
            ),
            _ => match typed_char(key) {
                Some(c) => searched(v, v.search_query.push(c)),
                None => v,
            },
        }
    }
}

/// What a key does on the vault screen.
pub open spec fn vault_key_step(v: AppView, key: KeyInput) -> (AppView, Action) {
    if v.search_editing {
        (search_key_step(v, key), Action::Idle)
    } else {
        match key.code {
            KeyCode::Char('q') => (AppView { should_quit: true, ..v }, Action::Idle),
            KeyCode::Char('l') => (locked(v), Action::Locked),
            KeyCode::Char('/') => (search_status_updated(AppView { search_editing: true, selected: 0, ..v }), Action::Idle),
            KeyCode::Esc => if v.search_query.len() != 0 {
                (search_cleared(v), Action::Idle)
            } else {
                (v, Action::Idle)
            },
            KeyCode::Char('a') => (add_opened(v), Action::Idle),
            KeyCode::Char('e') => (edit_opened(v), Action::Idle),
            KeyCode::Char('u') => copy_requested(v, CopyLabel::Username),
            KeyCode::Char('p') => copy_requested(v, CopyLabel::Password),
            KeyCode::Char('d') => (delete_confirmation_opened(v), Action::Idle),
            KeyCode::Tab => (recently_deleted_opened(v), Action::Idle),
            KeyCode::Up | KeyCode::Char('k') => (moved_up(v), Action::Idle),
            KeyCode::Down | KeyCode::Char('j') => (moved_down(v), Action::Idle),
            _ => (v, Action::Idle),
        }
    }
}


/// The entry in row `n` of a list of an optional vault.
fn row_entry<'a>(vault: &'a Option<UnlockedVault>, query: &str, deleted: bool, n: usize) -> (e: Option<&'a PasswordEntry>)
    ensures
        match data_of(*vault) {
            Some(d) => {
                let k = nth_listed(d.entries, query@, deleted, n as int);
                match e {
                    Some(e) => k != -1 && *e == d.entries[k],
                    None => k == -1,
                }
            },
            None => e is None,
        },
{
    match vault {
        None => None,
        Some(u) => {
            let d = u.data();
            match find_listed(&d.entries, query, deleted, n) {
                Some(k) => {
                    proof {
                        crate::listing::lemma_nth_listed(d.entries@, query@, deleted, n as int, 0);
                    }
                    Some(&d.entries[k])
                },
                None => None,
            }
        },
    }
}


/// The first index, at or after `start`, of an entry with `id`, deleted or
/// not, or -1.
pub open spec fn first_with_id_from(s: Seq<PasswordEntry>, id: u64, start: int) -> int
    decreases s.len() - start,
{
    if start < 0 || start >= s.len() {
        -1
    } else if s[start].id == id {
        start
    } else {
        first_with_id_from(s, id, start + 1)
    }
}

/// The first index of an entry with `id`, deleted or not, or -1.
pub open spec fn first_with_id(s: Seq<PasswordEntry>, id: u64) -> int {
    first_with_id_from(s, id, 0)
}

/// `nd` is `d` with these entries, stamped as updated at `updated`.
pub open spec fn vault_changed(d: VaultData, nd: VaultData, entries: Seq<PasswordEntry>, updated: u64) -> bool {
    nd == VaultData { entries, updated_unix: updated, ..d }
}

/// Whether an entry is active and holds exactly these fields.
pub open spec fn entry_with(
    e: PasswordEntry,
    id: u64,
    title: Seq<char>,
    username: Seq<char>,
    password: Seq<char>,
    url: Seq<char>,
    notes: Seq<char>,
) -> bool {
    &&& e.id == id
    &&& e.title@ == title
    &&& e.username@ == username
    &&& e.password@ == password
    &&& e.url@ == url
    &&& e.notes@ == notes
    &&& e.deleted_unix is None
}

/// The state when a saved entry has no title: the title field is focused.
pub open spec fn title_missing(v: AppView) -> AppView {
    AppView {
        form: FormView { field: AddField::Title, ..v.form },
        status: "A password entry needs a title."@,
        ..v
    }
}

/// What saving the add-entry form does. An entry whose trimmed title is not
/// empty is added with the next ID and the form's fields, the vault is
/// stamped at `now`, and a save is asked for; the change is remembered so a
/// failed save can take it back.
pub open spec fn add_requested(v: AppView, w: AppView, now: u64, a: Action) -> bool {
    let title = trimmed(v.form.title);
    if title.len() == 0 {
        w == title_missing(v) && a == Action::Idle
    } else {
        match v.vault {
            None => w == (AppView {
                form: empty_form(),
                mode: Mode::Unlock,
                status: "Vault is no longer unlocked."@,
                ..v
            }) && a == Action::Idle,
            Some(d) => if max_id(d.entries) == u64::MAX {
                w == (AppView {
                    status: "Could not add password entry: "@ + "vault entry ID space exhausted"@,
                    ..v
                }) && a == Action::Idle
            } else {
                let id = (max_id(d.entries) + 1) as u64;
                &&& a == Action::SaveVault
                &&& w == (AppView {
                    vault: w.vault,
                    pending: Some(PendingChange::Added { id, previous_updated: d.updated_unix }),
                    ..v
                })
                &&& w.vault matches Some(nd) && nd.entries.len() == d.entries.len() + 1 && vault_changed(
                    d,
                    nd,
                    d.entries.push(nd.entries.last()),
                    now,
                ) && entry_with(
                    nd.entries.last(),
                    id,
                    title,
                    v.form.username,
                    v.form.password,
                    v.form.url,
                    v.form.notes,
                )
            },
        }
    }
}

/// What saving the edit form does. The first active entry with the edited
/// ID gets the form's fields, the vault is stamped at `now`, and a save is
/// asked for; the entry's old fields are remembered for a failed save.
pub open spec fn edit_requested(v: AppView, w: AppView, now: u64, a: Action) -> bool {
    match v.editing_entry_id {
        None => w == (AppView {
            form: empty_form(),
            mode: Mode::Vault,
            status: "No password entry is selected for editing."@,
            ..v
        }) && a == Action::Idle,
        Some(id) => {
            let title = trimmed(v.form.title);
            if title.len() == 0 {
                w == title_missing(v) && a == Action::Idle
            } else {
                match v.vault {
                    None => w == (AppView {
                        form: empty_form(),
                        editing_entry_id: None,
                        mode: Mode::Unlock,
                        status: "Vault is no longer unlocked."@,
                        ..v
                    }) && a == Action::Idle,
                    Some(d) => {
                        let j = first_with_id(d.entries, id);
                        let k = first_match(d.entries, id, false);
                        if j == -1 {
                            w == (AppView {
                                form: empty_form(),
                                editing_entry_id: None,
                                mode: Mode::Vault,
                                status: "Password entry #"@ + decimal_text(id as nat) + " no longer exists."@,
                                ..v
                            }) && a == Action::Idle
                        } else if k == -1 {
                            w == (AppView {
                                status: "Could not update password entry: "@ + entry_not_found_text(id),
                                ..v
                            }) && a == Action::Idle
                        } else {
                            let old = d.entries[j];
                            &&& a == Action::SaveVault
                            &&& w == (AppView {
                                vault: w.vault,
                                pending: Some(
                                    PendingChange::Edited {
                                        id,
                                        title: old.title,
                                        username: old.username,
                                        password: old.password,
                                        url: old.url,
                                        notes: old.notes,
                                        previous_updated: d.updated_unix,
                                    },
                                ),
                                ..v
                            })
                            &&& w.vault matches Some(nd) && nd.entries.len() == d.entries.len() && vault_changed(
                                d,
                                nd,
                                d.entries.update(k, nd.entries[k]),
                                now,
                            ) && entry_with(
                                nd.entries[k],
                                id,
                                title,
                                v.form.username,
                                v.form.password,
                                v.form.url,
                                v.form.notes,
                            )
                        }
                    },
                }
            }
        },
    }
}

/// What confirming a move to Recently Deleted does: the selected entry's
/// first active namesake is marked deleted at `now` and a save is asked for.
pub open spec fn delete_requested(v: AppView, w: AppView, now: u64, a: Action) -> bool {
    let k = selected_row(v);
    if k == -1 {
        w == (AppView { mode: Mode::Vault, status: "There is no password entry selected to delete."@, ..v })
            && a == Action::Idle
    } else {
        let d = v.vault.unwrap();
        let id = d.entries[k].id;
        let j = first_with_id(d.entries, id);
        let m = first_match(d.entries, id, false);
        if m == -1 {
            w == (AppView {
                mode: Mode::Vault,
                status: "Could not delete password entry: "@ + entry_not_found_text(id),
                ..v
            }) && a == Action::Idle
        } else {
            &&& a == Action::SaveVault
            &&& w == (AppView {
                vault: Some(
                    VaultData {
                        entries: d.entries.update(m, PasswordEntry { deleted_unix: Some(now), ..d.entries[m] }),
                        updated_unix: now,
                        ..d
                    },
                ),
                pending: Some(
                    PendingChange::Deleted {
                        id,
                        previous_deleted: if j == -1 {
                            None
                        } else {
                            d.entries[j].deleted_unix
                        },
                        previous_updated: d.updated_unix,
                    },
                ),
                ..v
            })
        }
    }
}

/// What restoring the selected deleted entry does: its first deleted
/// namesake becomes active again at `now` and a save is asked for.
pub open spec fn restore_requested(v: AppView, w: AppView, now: u64, a: Action) -> bool {
    let k = selected_deleted_row(v);
    if k == -1 {
        w == (AppView { status: "There is no deleted password entry selected to restore."@, ..v }) && a
            == Action::Idle
    } else {
        let d = v.vault.unwrap();
        let e = d.entries[k];
        let m = first_match(d.entries, e.id, true);
        if m == -1 {
            w == (AppView {
                status: "Could not restore password entry: "@ + deleted_entry_not_found_text(e.id),
                ..v
            }) && a == Action::Idle
        } else {
            &&& a == Action::SaveVault
            &&& w == (AppView {
                vault: Some(
                    VaultData {
                        entries: d.entries.update(m, PasswordEntry { deleted_unix: None, ..d.entries[m] }),
                        updated_unix: now,
                        ..d
                    },
                ),
                pending: Some(
                    PendingChange::Restored {
                        id: e.id,
                        previous_deleted: e.deleted_unix,
                        previous_updated: d.updated_unix,
                    },
                ),
                ..v
            })
        }
    }
}

/// What confirming a permanent deletion does: the first deleted entry with
/// the confirmed ID is removed and a save is asked for.
pub open spec fn purge_requested(v: AppView, w: AppView, now: u64, a: Action) -> bool {
    match v.permanent_delete_entry_id {
        None => w == (AppView {
            mode: Mode::RecentlyDeleted,
            status: "There is no deleted password entry selected to permanently delete."@,
            ..v
        }) && a == Action::Idle,
        Some(id) => match v.vault {
            None => w == (AppView {
                permanent_delete_entry_id: None,
                mode: Mode::Unlock,
                status: "Vault is no longer unlocked."@,
                ..v
            }) && a == Action::Idle,
            Some(d) => {
                let m = first_match(d.entries, id, true);
                if m == -1 {
                    w == (AppView {
                        permanent_delete_entry_id: None,
                        mode: Mode::RecentlyDeleted,
                        status: "Could not permanently delete password entry: "@ + deleted_entry_not_found_text(id),
                        ..v
                    }) && a == Action::Idle
                } else {
                    &&& a == Action::SaveVault
                    &&& w == (AppView {
                        vault: Some(VaultData { entries: d.entries.remove(m), updated_unix: now, ..d }),
                        pending: Some(
                            PendingChange::Purged {
                                id,
                                index: m as usize,
                                entry: d.entries[m],
                                previous_updated: d.updated_unix,
                            },
                        ),
                        ..v
                    })
                }
            },
        },
    }
}

/// What confirming to empty Recently Deleted does: every deleted entry is
/// removed and, when there was one, a save is asked for.
pub open spec fn empty_requested(v: AppView, w: AppView, now: u64, a: Action) -> bool {
    if !v.empty_confirmation {
        w == (AppView {
            mode: Mode::RecentlyDeleted,
            status: "Recently Deleted empty confirmation is not active."@,
            ..v
        }) && a == Action::Idle
    } else {
        match v.vault {
            None => w == (AppView {
                empty_confirmation: false,
                mode: Mode::Unlock,
                status: "Vault is no longer unlocked."@,
                ..v
            }) && a == Action::Idle,
            Some(d) => {
                let n = d.entries.len() as int;
                let removed = removed_desc(d.entries, None, 0, n);
                if removed.len() == 0 {
                    w == (AppView {
                        empty_confirmation: false,
                        mode: Mode::RecentlyDeleted,
                        status: "Recently Deleted is already empty."@,
                        ..v
                    }) && a == Action::Idle
                } else {
                    &&& a == Action::SaveVault
                    &&& w == (AppView {
                        vault: Some(VaultData { entries: retained(d.entries, None, 0, n), updated_unix: now, ..d }),
                        pending: w.pending,
                        ..v
                    })
                    &&& w.pending matches Some(PendingChange::Emptied { removed: r, previous_updated: p }) && r@
                        == removed && p == d.updated_unix
                }
            },
        }
    }
}

/// A purge that removes nothing keeps every entry.
pub proof fn lemma_nothing_removed_keeps_all(s: Seq<PasswordEntry>, cutoff: Option<u64>, lo: int)
    requires
        0 <= lo <= s.len(),
        removed_desc(s, cutoff, lo, s.len() as int).len() == 0,
    ensures
        retained(s, cutoff, lo, s.len() as int) == s.subrange(lo, s.len() as int),
    decreases s.len() - lo,
{
    if lo < s.len() {
        lemma_nothing_removed_keeps_all(s, cutoff, lo + 1);
        assert(s.subrange(lo, s.len() as int) =~= seq![s[lo]] + s.subrange(lo + 1, s.len() as int));
    } else {
        assert(s.subrange(lo, s.len() as int) =~= Seq::<PasswordEntry>::empty());
    }
}

/// The first index of an entry with `id`, deleted or not.
fn find_by_id(entries: &Vec<PasswordEntry>, id: u64) -> (k: Option<usize>)
    ensures
        match k {
            Some(k) => k as int == first_with_id(entries@, id) && k < entries@.len(),
            None => first_with_id(entries@, id) == -1,
        },
{
    let mut i: usize = 0;
    while i < entries.len()
        invariant
            i <= entries@.len(),
            first_with_id(entries@, id) == first_with_id_from(entries@, id, i as int),
        decreases entries@.len() - i,
    {
        if entries[i].id == id {
            return Some(i);
        }
        i = i + 1;
    }
    None
}


/// The vault with a pending change taken back, as a failed save does it.
/// An added entry is dropped if it is still the last one; an edited,
/// deleted or restored entry gets its old fields or deleted state back on
/// the first entry with its ID; purged entries are put back at their former
/// indices. The update time is put back too (for an addition, only when the
/// entry was dropped).
pub open spec fn rolled_back(d: VaultData, c: PendingChange) -> VaultData {
    match c {
        PendingChange::Added { id, previous_updated } => if d.entries.len() > 0 && d.entries.last().id == id {
            VaultData { entries: d.entries.drop_last(), updated_unix: previous_updated, ..d }
        } else {
            d
        },
        PendingChange::Edited { id, title, username, password, url, notes, previous_updated } => {
            let j = first_with_id(d.entries, id);
            VaultData {
                entries: if j == -1 {
                    d.entries
                } else {
                    d.entries.update(j, PasswordEntry { title, username, password, url, notes, ..d.entries[j] })
                },
                updated_unix: previous_updated,
                ..d
            }
        },
        PendingChange::Deleted { id, previous_deleted, previous_updated } => {
            let j = first_with_id(d.entries, id);
            VaultData {
                entries: if j == -1 {
                    d.entries
                } else {
                    d.entries.update(j, PasswordEntry { deleted_unix: previous_deleted, ..d.entries[j] })
                },
                updated_unix: previous_updated,
                ..d
            }
        },
        PendingChange::Restored { id, previous_deleted, previous_updated } => {
            let j = first_with_id(d.entries, id);
            VaultData {
                entries: if j == -1 {
                    d.entries
                } else {
                    d.entries.update(j, PasswordEntry { deleted_unix: previous_deleted, ..d.entries[j] })
                },
                updated_unix: previous_updated,
                ..d
            }
        },
        PendingChange::Purged { id, index, entry, previous_updated } => VaultData {
            entries: if index <= d.entries.len() {
                d.entries.insert(index as int, entry)
            } else {
                d.entries
            },
            updated_unix: previous_updated,
            ..d
        },
        PendingChange::Emptied { removed, previous_updated } => VaultData {
            entries: reinsert_removed(d.entries, removed@),
            updated_unix: previous_updated,
            ..d
        },
    }
}

/// The Recently Deleted selection pulled back onto the last row.
pub open spec fn deleted_clamped(v: AppView) -> AppView {
    AppView {
        deleted_selected: if v.deleted_selected >= deleted_rows(v) {
            if deleted_rows(v) == 0 {
                0
            } else {
                (deleted_rows(v) - 1) as usize
            }
        } else {
            v.deleted_selected
        },
        ..v
    }
}

/// The active row of the first active entry with `id` (counting all active
/// entries), or 0.
pub open spec fn active_row_of(v: AppView, id: u64) -> usize {
    match v.vault {
        Some(d) => {
            let m = first_match(d.entries, id, false);
            if m == -1 {
                0
            } else {
                listed_count(d.entries, Seq::empty(), false, m) as usize
            }
        },
        None => 0,
    }
}

/// The state after a pending change was saved.
pub open spec fn saved(v: AppView, c: PendingChange) -> AppView {
    let w = AppView { pending: None, ..v };
    match c {
        PendingChange::Added { id, .. } => AppView {
            selected: if shown_rows(w) == 0 {
                0
            } else {
                (shown_rows(w) - 1) as usize
            },
            form: empty_form(),
            editing_entry_id: None,
            mode: Mode::Vault,
            status: "Password entry #"@ + decimal_text(id as nat) + " saved to the encrypted vault."@,
            ..w
        },
        PendingChange::Edited { id, .. } => AppView {
            mode: Mode::Vault,
            status: "Password entry #"@ + decimal_text(id as nat) + " updated in the encrypted vault."@,
            ..clamped(AppView { form: empty_form(), editing_entry_id: None, ..w })
        },
        PendingChange::Deleted { id, .. } => AppView {
            mode: Mode::Vault,
            status: "Password entry #"@ + decimal_text(id as nat) + " moved to Recently Deleted."@,
            ..clamped(w)
        },
        PendingChange::Restored { id, .. } => AppView {
            status: "Password entry #"@ + decimal_text(id as nat)
                + " restored. Tab or Esc returns to the active vault."@,
            ..deleted_clamped(AppView { selected: active_row_of(w, id), ..w })
        },
        PendingChange::Purged { id, .. } => AppView {
            permanent_delete_entry_id: None,
            mode: Mode::RecentlyDeleted,
            status: "Password entry #"@ + decimal_text(id as nat) + " permanently deleted."@,
            ..deleted_clamped(w)
        },
        PendingChange::Emptied { removed, .. } => AppView {
            deleted_selected: 0,
            empty_confirmation: false,
            mode: Mode::RecentlyDeleted,
            status: "Permanently deleted "@ + decimal_text(removed@.len()) + " item(s) from Recently Deleted."@,
            ..w
        },
    }
}

/// The state after the save of a pending change failed with `e`: the change
/// is taken back.
pub open spec fn save_failed(v: AppView, c: PendingChange, e: Seq<char>) -> AppView {
    let w = AppView {
        pending: None,
        vault: match v.vault {
            Some(d) => Some(rolled_back(d, c)),
            None => None,
        },
        ..v
    };
    match c {
        PendingChange::Added { .. } => AppView { status: "Could not save password entry: "@ + e, ..w },
        PendingChange::Edited { .. } => AppView { status: "Could not save edited password entry: "@ + e, ..w },
        PendingChange::Deleted { .. } => AppView {
            mode: Mode::Vault,
            status: "Could not save deleted password entry: "@ + e,
            ..w
        },
        PendingChange::Restored { .. } => AppView { status: "Could not save restored password entry: "@ + e, ..w },
        PendingChange::Purged { .. } => AppView {
            permanent_delete_entry_id: None,
            mode: Mode::RecentlyDeleted,
            status: "Could not save permanent deletion: "@ + e,
            ..w
        },
        PendingChange::Emptied { .. } => AppView {
            empty_confirmation: false,
            mode: Mode::RecentlyDeleted,
            status: "Could not save empty Recently Deleted operation: "@ + e,
            ..w
        },
    }
}

/// What the host's report on a `SaveVault` request does. A new vault that
/// saved becomes the unlocked vault; a pending change that saved is kept,
/// one that failed is taken back.
pub open spec fn save_reported(v: AppView, result: Result<(), String>) -> (AppView, Action) {
    if v.creating is Some {
        match result {
            Ok(_) => (
                AppView {
                    vault: v.creating,
                    vault_keys: v.creating_keys,
                    creating: None,
                    creating_keys: None,
                    input: Seq::empty(),
                    pending_password: Seq::empty(),
                    mode: Mode::Vault,
                    status: "Vault created, encrypted, written to disk, and unlocked."@,
                    ..v
                },
                Action::Unlocked,
            ),
            Err(e) => (
                AppView { creating: None, creating_keys: None, status: "Could not save the vault: "@ + e@, ..v },
                Action::Idle,
            ),
        }
    } else {
        match v.pending {
            None => (v, Action::Idle),
            Some(c) => match result {
                Ok(_) => (saved(v, c), Action::Idle),
                Err(e) => (save_failed(v, c, e@), Action::Idle),
            },
        }
    }
}

/// What saving the entry form does on the add and edit screens.
pub open spec fn entry_saved(v: AppView, w: AppView, now: u64, a: Action) -> bool {
    match v.mode {
        Mode::AddEntry => add_requested(v, w, now, a),
        Mode::EditEntry => edit_requested(v, w, now, a),
        _ => w == v && a == Action::Idle,
    }
}

/// The form with the focused field's text replaced.
pub open spec fn focused_text_set(v: AppView, t: Seq<char>) -> AppView {
    AppView { form: with_field_text(v.form, v.form.field, t), ..v }
}

/// What a key does on the add and edit screens.
pub open spec fn form_key_handled(v: AppView, w: AppView, key: KeyInput, now: u64, a: Action) -> bool {
    let text = field_text(v.form, v.form.field);
    if delete_word_shortcut(key, v.macos) {
        w == focused_text_set(v, without_previous_word(text)) && a == Action::Idle
    } else if clear_input_shortcut(key, v.macos) {
        w == focused_text_set(v, Seq::empty()) && a == Action::Idle
    } else if key.control && (key.code == KeyCode::Char('s') || key.code == KeyCode::Char('S')) {
        entry_saved(v, w, now, a)
    } else {
        match key.code {
            KeyCode::Esc => w == (AppView {
                form: empty_form(),
                editing_entry_id: None,
                mode: Mode::Vault,
                status: if v.mode == Mode::EditEntry {
                    "Password edit cancelled."@
                } else {
                    "New password entry cancelled."@
                },
                ..v
            }) && a == Action::Idle,
            KeyCode::Tab => w == (AppView { form: FormView { field: next_of(v.form.field), ..v.form }, ..v }) && a
                == Action::Idle,
            KeyCode::BackTab => w == (AppView {
                form: FormView { field: previous_of(v.form.field), ..v.form },
                ..v
            }) && a == Action::Idle,
            KeyCode::Enter => if v.form.field == AddField::Notes {
                entry_saved(v, w, now, a)
            } else {
                w == (AppView { form: FormView { field: next_of(v.form.field), ..v.form }, ..v }) && a
                    == Action::Idle
            },
            KeyCode::Backspace => w == focused_text_set(
                v,
                if text.len() == 0 {
                    text
                } else {
                    text.drop_last()
                },
            ) && a == Action::Idle,
            _ => match typed_char(key) {
                Some(c) => w == focused_text_set(v, text.push(c)) && a == Action::Idle,
                None => w == v && a == Action::Idle,
            },
        }
    }
}

/// What a key does on the delete confirmation: yes carries out the
/// confirmed deletion, no goes back.
pub open spec fn confirmation_key_handled(v: AppView, w: AppView, key: KeyInput, now: u64, a: Action) -> bool {
    match key.code {
        KeyCode::Enter | KeyCode::Char('y') | KeyCode::Char('Y') => if v.empty_confirmation {
            empty_requested(v, w, now, a)
        } else if v.permanent_delete_entry_id is Some {
            purge_requested(v, w, now, a)
        } else {
            delete_requested(v, w, now, a)
        },
        KeyCode::Esc | KeyCode::Char('n') | KeyCode::Char('N') => w == (AppView {
            mode: if v.permanent_delete_entry_id is Some || v.empty_confirmation {
                Mode::RecentlyDeleted
            } else {
                Mode::Vault
            },
            permanent_delete_entry_id: None,
            empty_confirmation: false,
            status: "Delete cancelled."@,
            ..v
        }) && a == Action::Idle,
        _ => w == v && a == Action::Idle,
    }
}

/// What a key does on the Recently Deleted screen.
pub open spec fn deleted_key_handled(v: AppView, w: AppView, key: KeyInput, now: u64, a: Action) -> bool {
    match key.code {
        KeyCode::Char('q') => w == (AppView { should_quit: true, ..v }) && a == Action::Idle,
        KeyCode::Char('l') => w == locked(v) && a == Action::Locked,
        KeyCode::Tab | KeyCode::Esc => w == (AppView {
            mode: Mode::Vault,
            status: "Returned to active vault."@,
            ..v
        }) && a == Action::Idle,
        KeyCode::Char('r') | KeyCode::Char('R') => restore_requested(v, w, now, a),
        KeyCode::Char('d') => w == permanent_confirmation_opened(v) && a == Action::Idle,
        KeyCode::Char('x') | KeyCode::Char('X') => w == empty_confirmation_opened(v) && a == Action::Idle,
        KeyCode::Up | KeyCode::Char('k') => w == deleted_moved_up(v) && a == Action::Idle,
        KeyCode::Down | KeyCode::Char('j') => w == deleted_moved_down(v) && a == Action::Idle,
        _ => w == v && a == Action::Idle,
    }
}

/// What a key does: releases are ignored, Ctrl+C quits, and every other key
/// goes to the screen shown.
pub open spec fn key_handled(v: AppView, w: AppView, key: KeyInput, now: u64, a: Action) -> bool {
    if key.release {
        w == v && a == Action::Idle
    } else if key.control && key.code == KeyCode::Char('c') {
        w == (AppView { should_quit: true, ..v }) && a == Action::Idle
    } else {
        match v.mode {
            Mode::Vault => (w, a) == vault_key_step(v, key),
            Mode::RecentlyDeleted => deleted_key_handled(v, w, key, now, a),
            Mode::AddEntry | Mode::EditEntry => form_key_handled(v, w, key, now, a),
            Mode::ConfirmDelete => confirmation_key_handled(v, w, key, now, a),
            Mode::Create | Mode::Confirm | Mode::Unlock => (w, a) == secret_key_step(v, key),
        }
    }
}

/// Wipes the entries and fields a pending change holds, when it is dropped.
fn discard_change(change: PendingChange) {
    match change {
        PendingChange::Edited { id, title, username, password, url, notes, .. } => {
            PasswordEntry { id, title, username, password, url, notes, deleted_unix: None }.wipe();
        },
        PendingChange::Purged { entry, .. } => entry.wipe(),
        PendingChange::Emptied { removed, .. } => {
            let mut removed = removed;
            while removed.len() > 0
                decreases removed@.len(),
            {
                match removed.pop() {
                    Some(pair) => {
                        let (_, entry) = pair;
                        entry.wipe();
                    },
                    None => {},
                }
            }
        },
        _ => {},
    }
}

/// Takes a pending change back, as a failed save does it.
fn roll_back(d: &mut Vault, change: PendingChange)
    ensures
        vault_data(*final(d)) == rolled_back(vault_data(*old(d)), change),
{
    match change {
        PendingChange::Added { id, previous_updated } => {
            let n = d.entries.len();
            if n > 0 && d.entries[n - 1].id == id {
                match d.entries.pop() {
                    Some(e) => e.wipe(),
                    None => {},
                }
                d.updated_unix = previous_updated;
                assert(d.entries@ =~= old(d).entries@.drop_last());
            }
        },
        PendingChange::Edited { id, title, username, password, url, notes, previous_updated } => {
            match find_by_id(&d.entries, id) {
                Some(j) => {
                    zeroize_string(&mut d.entries[j].title);
                    zeroize_string(&mut d.entries[j].username);
                    zeroize_string(&mut d.entries[j].password);
                    zeroize_string(&mut d.entries[j].url);
                    zeroize_string(&mut d.entries[j].notes);
                    d.entries[j].title = title;
                    d.entries[j].username = username;
                    d.entries[j].password = password;
                    d.entries[j].url = url;
                    d.entries[j].notes = notes;
                    assert(d.entries@ =~= old(d).entries@.update(
                        j as int,
                        PasswordEntry { title, username, password, url, notes, ..old(d).entries@[j as int] },
                    ));
                },
                None => {},
            }
            d.updated_unix = previous_updated;
        },
        PendingChange::Deleted { id, previous_deleted, previous_updated } => {
            match find_by_id(&d.entries, id) {
                Some(j) => {
                    d.entries[j].deleted_unix = previous_deleted;
                },
                None => {},
            }
            d.updated_unix = previous_updated;
        },
        PendingChange::Restored { id, previous_deleted, previous_updated } => {
            match find_by_id(&d.entries, id) {
                Some(j) => {
                    d.entries[j].deleted_unix = previous_deleted;
                },
                None => {},
            }
            d.updated_unix = previous_updated;
        },
        PendingChange::Purged { id, index, entry, previous_updated } => {
            if index <= d.entries.len() {
                d.entries.insert(index, entry);
            }
            d.updated_unix = previous_updated;
        },
        PendingChange::Emptied { removed, previous_updated } => {
            let mut removed = removed;
            let ghost all = removed@;
            let ghost start = d.entries@;
            while removed.len() > 0
                invariant
                    reinsert_removed(d.entries@, removed@) == reinsert_removed(start, all),
                    d.format_version == old(d).format_version,
                    d.created_unix == old(d).created_unix,
                    d.updated_unix == old(d).updated_unix,
                    d.notes@ == old(d).notes@,
                decreases removed@.len(),
            {
                let ghost before = removed@;
                match removed.pop() {
                    Some(pair) => {
                        let (index, entry) = pair;
                        assert(before.drop_last() == removed@);
                        if index <= d.entries.len() {
                            d.entries.insert(index, entry);
                        }
                    },
                    None => {},
                }
            }
            assert(reinsert_removed(d.entries@, removed@) == d.entries@);
            d.updated_unix = previous_updated;
        },
    }
}

impl App {
    /// The application as it starts: on the unlock screen when a vault file
    /// exists, else on the create screen. A storage notice, if any, leads
    /// the status line.
    pub fn new(vault_exists: bool, storage_notice: Option<String>, auto_lock_secs: Option<u64>, macos: bool) -> (app: App)
        ensures
            app@ == started(
                vault_exists,
                match storage_notice {
                    Some(n) => n@ + " "@ + start_status(vault_exists),
                    None => start_status(vault_exists),
                },
                auto_lock_secs,
                macos,
            ),
    {
        let base = if vault_exists {
            String::from_str("Encrypted vault found. Enter the master password.")
        } else {
            String::from_str("No vault exists yet. Create a master password.")
        };
        let status = match storage_notice {
            Some(notice) => {
                let mut s = notice;
                s.append(" ");
                s.append(base.as_str());
                s
            },
            None => base,
        };
        App {
            mode: if vault_exists {
                Mode::Unlock
            } else {
                Mode::Create
            },
            input: String::new(),
            pending_password: String::new(),
            vault: None,
            creating: None,
            pending: None,
            selected: 0,
            deleted_selected: 0,
            form: AddEntryForm::new(),
            editing_entry_id: None,
            permanent_delete_entry_id: None,
            empty_confirmation: false,
            status,
            search_query: String::new(),
            search_editing: false,
            auto_lock_secs,
            macos,
            should_quit: false,
        }
    }

    /// The screen shown.
    pub fn mode(&self) -> (m: Mode)
        ensures
            m == self@.mode,
    {
        self.mode
    }

    /// How many characters of master password have been typed.
    pub fn input_len(&self) -> (n: usize)
        ensures
            n == self@.input.len(),
    {
        crate::text::chars_of(self.input.as_str()).len()
    }

    /// The master password typed so far.
    pub fn secret_input(&self) -> (s: &str)
        ensures
            s@ == self@.input,
    {
        self.input.as_str()
    }

    /// The selected row of the active list.
    pub fn selected_index(&self) -> (n: usize)
        ensures
            n == self@.selected,
    {
        self.selected
    }

    /// The entry in the selected row of the active list.
    pub fn selected_entry(&self) -> (e: Option<&PasswordEntry>)
        ensures
            match e {
                Some(e) => selected_row(self@) != -1 && *e == self@.vault.unwrap().entries[selected_row(self@)],
                None => selected_row(self@) == -1,
            },
    {
        row_entry(&self.vault, self.search_query.as_str(), false, self.selected)
    }

    /// The entry in the selected row of Recently Deleted.
    pub fn selected_deleted_entry(&self) -> (e: Option<&PasswordEntry>)
        ensures
            match e {
                Some(e) => selected_deleted_row(self@) != -1 && *e == self@.vault.unwrap().entries[selected_deleted_row(
                    self@,
                )],
                None => selected_deleted_row(self@) == -1,
            },
    {
        proof {
            reveal_strlit("");
            assert(""@ =~= Seq::<char>::empty());
        }
        row_entry(&self.vault, "", true, self.deleted_selected)
    }

    /// Whether an entry matches the search query.
    pub fn entry_matches_search(&self, entry: &PasswordEntry) -> (b: bool)
        ensures
            b == crate::search::entry_matches_query(*entry, self@.search_query),
    {
        crate::search::password_entry_matches_search(entry, self.search_query.as_str())
    }

    /// The search query.
    pub fn search_query(&self) -> (q: &str)
        ensures
            q@ == self@.search_query,
    {
        self.search_query.as_str()
    }

    /// Whether the search query is being edited.
    pub fn search_editing(&self) -> (b: bool)
        ensures
            b == self@.search_editing,
    {
        self.search_editing
    }

    /// How many rows the active list shows.
    pub fn filtered_active_count(&self) -> (n: usize)
        ensures
            n == shown_rows(self@),
    {
        match &self.vault {
            None => 0,
            Some(u) => count_listed(&u.data().entries, self.search_query.as_str(), false),
        }
    }

    /// How many active entries the vault holds.
    pub fn active_count(&self) -> (n: usize)
        ensures
            n == active_rows(self@),
    {
        match &self.vault {
            None => 0,
            Some(u) => {
                proof {
                    reveal_strlit("");
                    assert(""@ =~= Seq::<char>::empty());
                }
                count_listed(&u.data().entries, "", false)
            },
        }
    }

    /// How many rows Recently Deleted shows.
    pub fn deleted_count(&self) -> (n: usize)
        ensures
            n == deleted_rows(self@),
    {
        match &self.vault {
            None => 0,
            Some(u) => {
                proof {
                    reveal_strlit("");
                    assert(""@ =~= Seq::<char>::empty());
                }
                count_listed(&u.data().entries, "", true)
            },
        }
    }

    /// The selected row of Recently Deleted.
    pub fn deleted_selected_index(&self) -> (n: usize)
        ensures
            n == self@.deleted_selected,
    {
        self.deleted_selected
    }

    /// Whether the confirmation asks to permanently delete one entry.
    pub fn is_permanent_delete_confirmation(&self) -> (b: bool)
        ensures
            b == (self@.permanent_delete_entry_id is Some),
    {
        self.permanent_delete_entry_id.is_some()
    }

    /// Whether the confirmation asks to empty Recently Deleted.
    pub fn is_empty_recently_deleted_confirmation(&self) -> (b: bool)
        ensures
            b == self@.empty_confirmation,
    {
        self.empty_confirmation
    }

    /// The entry form.
    pub fn add_form(&self) -> (f: &AddEntryForm)
        ensures
            f@ == self@.form,
    {
        &self.form
    }

    /// The unlocked vault, if any.
    pub fn vault(&self) -> (u: Option<&UnlockedVault>)
        ensures
            data_of(
                match u {
                    Some(u) => Some(*u),
                    None => None,
                },
            ) == self@.vault,
            keys_of(
                match u {
                    Some(u) => Some(*u),
                    None => None,
                },
            ) == self@.vault_keys,
    {
        match &self.vault {
            Some(u) => Some(u),
            None => None,
        }
    }

    /// The vault a `SaveVault` action writes: the one being created, else the
    /// unlocked one.
    pub fn vault_to_save(&self) -> (u: Option<&UnlockedVault>)
        ensures
            match self@.creating {
                Some(d) => u matches Some(u) && vault_data(u.spec_data()) == d && Some(
                    (u.spec_key(), u.spec_kdf(), u.spec_salt()),
                ) == self@.creating_keys,
                None => data_of(
                    match u {
                        Some(u) => Some(*u),
                        None => None,
                    },
                ) == self@.vault && keys_of(
                    match u {
                        Some(u) => Some(*u),
                        None => None,
                    },
                ) == self@.vault_keys,
            },
    {
        match &self.creating {
            Some(u) => Some(u),
            None => match &self.vault {
                Some(u) => Some(u),
                None => None,
            },
        }
    }

    /// The text a `Copy` action copies: that field of the selected entry.
    pub fn clipboard_text(&self, label: CopyLabel) -> (t: Option<&str>)
        ensures
            match t {
                Some(t) => selected_row(self@) != -1 && t@ == copied_field(
                    self@.vault.unwrap().entries[selected_row(self@)],
                    label,
                ),
                None => selected_row(self@) == -1,
            },
    {
        match self.selected_entry() {
            Some(e) => match label {
                CopyLabel::Username => Some(e.username.as_str()),
                CopyLabel::Password => Some(e.password.as_str()),
            },
            None => None,
        }
    }

    /// The status line.
    pub fn status(&self) -> (s: &str)
        ensures
            s@ == self@.status,
    {
        self.status.as_str()
    }

    /// The auto-lock timeout in seconds, `None` when auto-lock is off.
    pub fn auto_lock_seconds(&self) -> (s: Option<u64>)
        ensures
            s == self@.auto_lock_secs,
    {
        self.auto_lock_secs
    }

    /// Whether the application should exit.
    pub fn should_quit(&self) -> (b: bool)
        ensures
            b == self@.should_quit,
    {
        self.should_quit
    }

    /// Locks the vault: drops the vault and its key, any pending change, and
    /// wipes every secret buffer.
    pub fn lock_vault(&mut self) -> (a: Action)
        ensures
            final(self)@ == locked(old(self)@),
            a == Action::Locked,
    {
        match self.vault.take() {
            Some(u) => u.wipe(),
            None => {},
        }
        match self.creating.take() {
            Some(u) => u.wipe(),
            None => {},
        }
        match self.pending.take() {
            Some(c) => discard_change(c),
            None => {},
        }
        zeroize_string(&mut self.input);
        zeroize_string(&mut self.pending_password);
        self.form.reset();
        self.editing_entry_id = None;
        self.permanent_delete_entry_id = None;
        self.empty_confirmation = false;
        clear_text_input(&mut self.search_query);
        self.search_editing = false;
        self.selected = 0;
        self.deleted_selected = 0;
        self.mode = Mode::Unlock;
        self.status = String::from_str("Vault locked. Encryption key cleared from memory.");
        Action::Locked
    }

    /// Wipes every secret the application holds as it shuts down, as locking
    /// does: the vault and its key, a vault being created, any pending change,
    /// the typed master passwords, the entry form and the search query. The
    /// application is consumed.
    pub fn wipe(self) {
        let mut app = self;
        app.lock_vault();
    }

    /// A timer tick: reports what the clipboard timer did, then locks the
    /// vault if it has been idle for the auto-lock timeout.
    pub fn handle_tick(&mut self, clipboard: ClipboardTick, idle_nanos: u128) -> (a: Action)
        ensures
            ({
                let v = after_clipboard_tick(old(self)@, clipboard);
                let expired = v.vault is Some && match v.auto_lock_secs {
                    Some(t) => idle_nanos >= t * 1_000_000_000,
                    None => false,
                };
                if expired {
                    &&& final(self)@ == AppView {
                        status: auto_locked_status(
                            match v.auto_lock_secs {
                                Some(t) => t,
                                None => 0,
                            },
                        ),
                        ..locked(v)
                    }
                    &&& a == Action::Locked
                } else {
                    final(self)@ == v && a == Action::Idle
                }
            }),
    {
        match clipboard {
            ClipboardTick::Idle => {},
            ClipboardTick::Cleared => {
                self.status = String::from_str("BarePass clipboard text cleared after 30 seconds.");
            },
            ClipboardTick::Failed(e) => {
                self.status = message_with_text("Could not auto-clear clipboard: ", e.as_str());
            },
        }
        if !inactivity_expired(self.vault.is_some(), self.auto_lock_secs, idle_nanos) {
            return Action::Idle;
        }
        let seconds: u64 = match self.auto_lock_secs {
            Some(t) => t,
            None => 0,
        };
        let a = self.lock_vault();
        self.status = message_with_number(
            "Vault auto-locked after ",
            seconds,
            " seconds of inactivity. Encryption key cleared from memory.",
        );
        a
    }

    /// Reports the outcome of a copy.
    pub fn copy_finished(&mut self, label: CopyLabel, outcome: CopyOutcome)
        ensures
            final(self)@ == (AppView { status: copy_status(label, outcome), ..old(self)@ }),
    {
        let name = match label {
            CopyLabel::Username => "Username",
            CopyLabel::Password => "Password",
        };
        self.status = match outcome {
            CopyOutcome::Copied => message_with_text(
                name,
                " copied. BarePass will clear it after 30 seconds if the clipboard is unchanged.",
            ),
            CopyOutcome::Unavailable(e) => message_with_text("Clipboard unavailable: ", e.as_str()),
            CopyOutcome::Failed(e) => {
                let mut m = message_with_text("Could not copy ", name);
                m.append(": ");
                m.append(e.as_str());
                m
            },
        };
    }

    /// Asks to copy a field of the selected entry.
    fn copy_selected(&mut self, label: CopyLabel) -> (a: Action)
        ensures
            (final(self)@, a) == copy_requested(old(self)@, label),
    {
        let empty = match self.clipboard_text(label) {
            None => {
                self.status = String::from_str("There is no password entry selected to copy from.");
                return Action::Idle;
            },
            Some(t) => t.is_empty(),
        };
        if empty {
            self.status = match label {
                CopyLabel::Username => String::from_str("The selected password entry has no username to copy."),
                CopyLabel::Password => String::from_str("The selected password entry has no password to copy."),
            };
            return Action::Idle;
        }
        Action::Copy(label)
    }

    /// Writes the search status line.
    fn update_search_status(&mut self)
        ensures
            final(self)@ == (AppView {
                status: search_status(old(self)@.search_query, shown_rows(old(self)@)),
                ..old(self)@
            }),
    {
        let count = self.filtered_active_count();
        self.status = if self.search_query.as_str().is_empty() {
            message_with_number("Search active. ", count as u64, " password entry(s) available.")
        } else {
            message_with_number("Search filter matches ", count as u64, " password entry(s).")
        };
    }

    /// Clears the search.
    fn clear_search(&mut self)
        ensures
            final(self)@ == search_cleared(old(self)@),
    {
        clear_text_input(&mut self.search_query);
        self.search_editing = false;
        self.selected = 0;
        self.status = String::from_str("Search cleared.");
    }

    /// Moves the selection up one row.
    fn move_selection_up(&mut self)
        ensures
            final(self)@ == moved_up(old(self)@),
    {
        if self.selected > 0 {
            self.selected = self.selected - 1;
        }
    }

    /// Moves the selection down one row.
    fn move_selection_down(&mut self)
        ensures
            final(self)@ == moved_down(old(self)@),
    {
        let count = self.filtered_active_count();
        if count > 0 && self.selected < count - 1 {
            self.selected = self.selected + 1;
        }
    }

    /// Pulls the selection back onto the last row.
    fn clamp_active_selection(&mut self)
        ensures
            final(self)@ == clamped(old(self)@),
    {
        let count = self.filtered_active_count();
        if self.selected >= count {
            self.selected = if count == 0 {
                0
            } else {
                count - 1
            };
        }
    }

    /// Moves the Recently Deleted selection up one row.
    fn move_deleted_selection_up(&mut self)
        ensures
            final(self)@ == deleted_moved_up(old(self)@),
    {
        if self.deleted_selected > 0 {
            self.deleted_selected = self.deleted_selected - 1;
        }
    }

    /// Moves the Recently Deleted selection down one row.
    fn move_deleted_selection_down(&mut self)
        ensures
            final(self)@ == deleted_moved_down(old(self)@),
    {
        let count = self.deleted_count();
        if count > 0 && self.deleted_selected < count - 1 {
            self.deleted_selected = self.deleted_selected + 1;
        }
    }

    /// Handles a key on the master-password screens.
    fn handle_secret_key(&mut self, key: KeyInput) -> (a: Action)
        ensures
            (final(self)@, a) == secret_key_step(old(self)@, key),
    {
        if is_delete_word_shortcut(&key, self.macos) {
            delete_previous_word(&mut self.input);
            return Action::Idle;
        }
        if is_clear_input_shortcut(&key, self.macos) {
            clear_text_input(&mut self.input);
            return Action::Idle;
        }
        match key.code {
            KeyCode::Enter => self.submit_secret(),
            KeyCode::Backspace => {
                let _ = string_pop(&mut self.input);
                Action::Idle
            },
            KeyCode::Esc => {
                if self.mode == Mode::Confirm {
                    zeroize_string(&mut self.input);
                    zeroize_string(&mut self.pending_password);
                    self.mode = Mode::Create;
                    self.status = String::from_str("Master password creation cancelled. Start again.");
                } else {
                    self.should_quit = true;
                }
                Action::Idle
            },
            KeyCode::Char(c) => {
                if !key.control && !key.alt {
                    string_push(&mut self.input, c);
                }
                Action::Idle
            },
            _ => Action::Idle,
        }
    }

    /// Submits the master-password screen.
    fn submit_secret(&mut self) -> (a: Action)
        ensures
            (final(self)@, a) == submitted(old(self)@),
    {
        match self.mode {
            Mode::Create => {
                self.begin_confirmation();
                Action::Idle
            },
            Mode::Confirm => self.finish_creation(),
            Mode::Unlock => Action::UnlockVault,
            _ => Action::Idle,
        }
    }

    /// Moves a new master password of at least 12 characters on to
    /// confirmation.
    fn begin_confirmation(&mut self)
        requires
            old(self)@.mode == Mode::Create,
        ensures
            final(self)@ == submitted(old(self)@).0,
    {
        if self.input_len() < MIN_MASTER_PASSWORD_CHARS {
            self.status = String::from_str("Use at least 12 characters for the master password.");
            return;
        }
        zeroize_string(&mut self.pending_password);
        self.pending_password.append(self.input.as_str());
        zeroize_string(&mut self.input);
        self.mode = Mode::Confirm;
        self.status = String::from_str("Type the same master password again.");
    }

    /// Checks the confirmation against the first entry: a mismatch starts
    /// over, a match asks to create the vault.
    fn finish_creation(&mut self) -> (a: Action)
        requires
            old(self)@.mode == Mode::Confirm,
        ensures
            (final(self)@, a) == submitted(old(self)@),
    {
        if self.input != self.pending_password {
            zeroize_string(&mut self.input);
            zeroize_string(&mut self.pending_password);
            self.mode = Mode::Create;
            self.status = String::from_str("Passwords did not match. Start again.");
            return Action::Idle;
        }
        Action::CreateVault
    }

    /// Takes the host's report on a `CreateVault` request. When the lock is
    /// held and no vault exists, derives the key for the typed master
    /// password and asks to save the new, empty vault created at `now`.
    pub fn creation_checked(&mut self, check: CreationCheck, now: u64) -> (a: Action)
        ensures
            match check {
                CreationCheck::Ready => {
                    ||| {
                        &&& a == Action::SaveVault
                        &&& final(self)@.creating matches Some(d) && fresh_vault(d, now)
                        &&& final(self)@.creating_keys matches Some(keys) && keys.1 == current_kdf_spec()
                            && keys.2.len() == SALT_LEN && keys.0 == master_key(old(self)@.input, keys.2, keys.1)
                        &&& final(self)@ == (AppView {
                            creating: final(self)@.creating,
                            creating_keys: final(self)@.creating_keys,
                            ..old(self)@
                        })
                    }
                    ||| {
                        &&& a == Action::Idle
                        &&& exists|e: Seq<char>|
                            (is_random_failure(e) || is_derivation_failure(e)) && final(self)@ == (AppView {
                                status: "Could not create the vault: "@ + e,
                                ..old(self)@
                            })
                    }
                },
                _ => final(self)@ == creation_refused(old(self)@, check) && a == Action::Idle,
            },
    {
        match check {
            CreationCheck::LockFailed(e) => {
                zeroize_string(&mut self.input);
                zeroize_string(&mut self.pending_password);
                self.status = e;
                Action::Idle
            },
            CreationCheck::VaultExists => {
                zeroize_string(&mut self.input);
                zeroize_string(&mut self.pending_password);
                self.mode = Mode::Unlock;
                self.status = String::from_str(
                    "A vault appeared while this BarePass process was creating one. Unlock it instead.",
                );
                Action::Idle
            },
            CreationCheck::Ready => {
                let data = Vault::new_at(now);
                match create_unlocked_vault(data, self.input.as_str()) {
                    Ok(u) => {
                        self.creating = Some(u);
                        Action::SaveVault
                    },
                    Err(e) => {
                        self.status = message_with_text("Could not create the vault: ", e.as_str());
                        Action::Idle
                    },
                }
            },
        }
    }

    /// Takes the host's report on an `UnlockVault` request.
    pub fn unlock_finished(&mut self, outcome: UnlockOutcome) -> (a: Action)
        ensures
            (final(self)@, a) == unlock_reported(old(self)@, outcome),
    {
        match outcome {
            UnlockOutcome::LockFailed(e) => {
                zeroize_string(&mut self.input);
                self.status = e;
                Action::Idle
            },
            UnlockOutcome::Opened(u) => {
                self.vault = Some(u);
                zeroize_string(&mut self.input);
                zeroize_string(&mut self.pending_password);
                self.mode = Mode::Vault;
                self.status = String::from_str("Vault unlocked successfully.");
                Action::Unlocked
            },
            UnlockOutcome::Failed => {
                zeroize_string(&mut self.input);
                self.status = String::from_str("Unlock failed: wrong master password or damaged vault.");
                Action::Idle
            },
        }
    }


    /// Handles a key on the vault screen.
    fn handle_vault_key(&mut self, key: KeyInput) -> (a: Action)
        ensures
            (final(self)@, a) == vault_key_step(old(self)@, key),
    {
        if self.search_editing {
            self.handle_search_key(key);
            return Action::Idle;
        }
        match key.code {
            KeyCode::Char('q') => {
                self.should_quit = true;
                Action::Idle
            },
            KeyCode::Char('l') => self.lock_vault(),
            KeyCode::Char('/') => {
                self.search_editing = true;
                self.selected = 0;
                self.update_search_status();
                Action::Idle
            },
            KeyCode::Esc => {
                if !self.search_query.as_str().is_empty() {
                    self.clear_search();
                }
                Action::Idle
            },
            KeyCode::Char('a') => {
                self.open_add_entry();
                Action::Idle
            },
            KeyCode::Char('e') => {
                self.open_edit_entry();
                Action::Idle
            },
            KeyCode::Char('u') => self.copy_selected(CopyLabel::Username),
            KeyCode::Char('p') => self.copy_selected(CopyLabel::Password),
            KeyCode::Char('d') => {
                self.open_delete_confirmation();
                Action::Idle
            },
            KeyCode::Tab => {
                self.open_recently_deleted();
                Action::Idle
            },
            KeyCode::Up | KeyCode::Char('k') => {
                self.move_selection_up();
                Action::Idle
            },
            KeyCode::Down | KeyCode::Char('j') => {
                self.move_selection_down();
                Action::Idle
            },
            _ => Action::Idle,
        }
    }

    /// Handles a key while the search query is being edited.
    fn handle_search_key(&mut self, key: KeyInput)
        ensures
            final(self)@ == search_key_step(old(self)@, key),
    {
        if is_delete_word_shortcut(&key, self.macos) {
            delete_previous_word(&mut self.search_query);
            self.selected = 0;
            self.update_search_status();
            return;
        }
        if is_clear_input_shortcut(&key, self.macos) {
            clear_text_input(&mut self.search_query);
            self.selected = 0;
            self.update_search_status();
            return;
        }
        match key.code {
            KeyCode::Esc => self.clear_search(),
            KeyCode::Enter => {
                self.search_editing = false;
                self.update_search_status();
            },
            KeyCode::Up => self.move_selection_up(),
            KeyCode::Down => self.move_selection_down(),
            KeyCode::Backspace => {
                let _ = string_pop(&mut self.search_query);
                self.selected = 0;
                self.update_search_status();
            },
            KeyCode::Char(c) => {
                if !key.control && !key.alt {
                    string_push(&mut self.search_query, c);
                    self.selected = 0;
                    self.update_search_status();
                }
            },
            _ => {},
        }
    }

    /// Opens the add-entry form.
    fn open_add_entry(&mut self)
        ensures
            final(self)@ == add_opened(old(self)@),
    {
        clear_text_input(&mut self.search_query);
        self.search_editing = false;
        self.selected = 0;
        self.form.reset();
        self.editing_entry_id = None;
        self.mode = Mode::AddEntry;
        self.status = String::from_str("Adding a new password entry.");
    }

    /// Opens the edit form on the selected entry.
    fn open_edit_entry(&mut self)
        ensures
            final(self)@ == edit_opened(old(self)@),
    {
        if self.vault.is_none() {
            self.status = String::from_str("Vault is no longer unlocked.");
            return;
        }
        let id = match row_entry(&self.vault, self.search_query.as_str(), false, self.selected) {
            None => {
                self.status = String::from_str("There is no password entry selected to edit.");
                return;
            },
            Some(entry) => {
                self.form.load_from_entry(entry);
                entry.id
            },
        };
        self.editing_entry_id = Some(id);
        self.mode = Mode::EditEntry;
        self.status = message_with_number("Editing password entry #", id, ".");
    }

    /// Asks to confirm moving the selected entry to Recently Deleted.
    fn open_delete_confirmation(&mut self)
        ensures
            final(self)@ == delete_confirmation_opened(old(self)@),
    {
        let id = match self.selected_entry() {
            None => {
                self.status = String::from_str("There is no password entry selected to delete.");
                return;
            },
            Some(entry) => entry.id,
        };
        self.empty_confirmation = false;
        self.permanent_delete_entry_id = None;
        self.mode = Mode::ConfirmDelete;
        self.status = message_with_number("Confirm moving password entry #", id, " to Recently Deleted.");
    }

    /// Opens Recently Deleted.
    fn open_recently_deleted(&mut self)
        ensures
            final(self)@ == recently_deleted_opened(old(self)@),
    {
        clear_text_input(&mut self.search_query);
        self.search_editing = false;
        self.selected = 0;
        self.deleted_selected = 0;
        self.mode = Mode::RecentlyDeleted;
        let count = self.deleted_count();
        self.status = if count == 0 {
            String::from_str("Recently Deleted is empty.")
        } else {
            message_with_number("Recently Deleted contains ", count as u64, " item(s).")
        };
    }

    /// Asks to confirm permanently deleting the selected deleted entry.
    fn open_permanent_delete_confirmation(&mut self)
        ensures
            final(self)@ == permanent_confirmation_opened(old(self)@),
    {
        let id = match self.selected_deleted_entry() {
            None => {
                self.status = String::from_str("There is no deleted password entry selected to permanently delete.");
                return;
            },
            Some(entry) => entry.id,
        };
        self.empty_confirmation = false;
        self.permanent_delete_entry_id = Some(id);
        self.mode = Mode::ConfirmDelete;
        self.status = message_with_number(
            "Confirm permanently deleting password entry #",
            id,
            ". This cannot be undone.",
        );
    }

    /// Asks to confirm emptying Recently Deleted.
    fn open_empty_recently_deleted_confirmation(&mut self)
        ensures
            final(self)@ == empty_confirmation_opened(old(self)@),
    {
        let count = self.deleted_count();
        if count == 0 {
            self.status = String::from_str("Recently Deleted is already empty.");
            return;
        }
        self.permanent_delete_entry_id = None;
        self.empty_confirmation = true;
        self.mode = Mode::ConfirmDelete;
        self.status = message_with_number(
            "Confirm permanently deleting all ",
            count as u64,
            " item(s) from Recently Deleted.",
        );
    }


    /// Saves the add-entry form as a new entry stamped at `now`.
    fn save_add_entry(&mut self, now: u64) -> (a: Action)
        ensures
            add_requested(old(self)@, final(self)@, now, a),
    {
        let title_text = str_trim(self.form.value(AddField::Title));
        if title_text.is_empty() {
            self.form.set_field(AddField::Title);
            self.status = String::from_str("A password entry needs a title.");
            return Action::Idle;
        }
        match &mut self.vault {
            None => {
                self.form.reset();
                self.mode = Mode::Unlock;
                self.status = String::from_str("Vault is no longer unlocked.");
                Action::Idle
            },
            Some(u) => {
                let title = String::from_str(title_text);
                let username = String::from_str(self.form.value(AddField::Username));
                let password = String::from_str(self.form.value(AddField::Password));
                let url = String::from_str(self.form.value(AddField::Url));
                let notes = String::from_str(self.form.value(AddField::Notes));
                let d = u.data_mut();
                let previous_updated = d.updated_unix;
                let ghost old_entries = d.entries@;
                match d.add_password_entry_at(title, username, password, url, notes, now) {
                    Ok(id) => {
                        assert(d.entries@ =~= old_entries.push(d.entries@.last()));
                        self.pending = Some(PendingChange::Added { id, previous_updated });
                        Action::SaveVault
                    },
                    Err(e) => {
                        self.status = message_with_text("Could not add password entry: ", e.as_str());
                        Action::Idle
                    },
                }
            },
        }
    }


    /// Saves the edit form into the edited entry, stamped at `now`.
    fn save_edit_entry(&mut self, now: u64) -> (a: Action)
        ensures
            edit_requested(old(self)@, final(self)@, now, a),
    {
        let id = match self.editing_entry_id {
            None => {
                self.form.reset();
                self.mode = Mode::Vault;
                self.status = String::from_str("No password entry is selected for editing.");
                return Action::Idle;
            },
            Some(id) => id,
        };
        let title_text = str_trim(self.form.value(AddField::Title));
        if title_text.is_empty() {
            self.form.set_field(AddField::Title);
            self.status = String::from_str("A password entry needs a title.");
            return Action::Idle;
        }
        match &mut self.vault {
            None => {
                self.form.reset();
                self.editing_entry_id = None;
                self.mode = Mode::Unlock;
                self.status = String::from_str("Vault is no longer unlocked.");
                Action::Idle
            },
            Some(u) => {
                let d = u.data_mut();
                let previous_updated = d.updated_unix;
                let j = match find_by_id(&d.entries, id) {
                    None => {
                        self.form.reset();
                        self.editing_entry_id = None;
                        self.mode = Mode::Vault;
                        self.status = message_with_number("Password entry #", id, " no longer exists.");
                        return Action::Idle;
                    },
                    Some(j) => j,
                };
                let old_title = d.entries[j].title.clone();
                let old_username = d.entries[j].username.clone();
                let old_password = d.entries[j].password.clone();
                let old_url = d.entries[j].url.clone();
                let old_notes = d.entries[j].notes.clone();
                let title = String::from_str(title_text);
                let username = String::from_str(self.form.value(AddField::Username));
                let password = String::from_str(self.form.value(AddField::Password));
                let url = String::from_str(self.form.value(AddField::Url));
                let notes = String::from_str(self.form.value(AddField::Notes));
                let ghost old_entries = d.entries@;
                match d.update_password_entry_at(id, title, username, password, url, notes, now) {
                    Ok(()) => {
                        proof {
                            let k = first_match(old_entries, id, false);
                            lemma_first_match_in_range(old_entries, id, false, 0);
                            assert(d.entries@ =~= old_entries.update(k, d.entries@[k]));
                        }
                        self.pending = Some(
                            PendingChange::Edited {
                                id,
                                title: old_title,
                                username: old_username,
                                password: old_password,
                                url: old_url,
                                notes: old_notes,
                                previous_updated,
                            },
                        );
                        Action::SaveVault
                    },
                    Err(e) => {
                        self.status = message_with_text("Could not update password entry: ", e.as_str());
                        Action::Idle
                    },
                }
            },
        }
    }

    /// Moves the selected entry to Recently Deleted at `now`.
    fn move_selected_entry_to_deleted(&mut self, now: u64) -> (a: Action)
        ensures
            delete_requested(old(self)@, final(self)@, now, a),
    {
        let id = match self.selected_entry() {
            None => {
                self.mode = Mode::Vault;
                self.status = String::from_str("There is no password entry selected to delete.");
                return Action::Idle;
            },
            Some(e) => e.id,
        };
        match &mut self.vault {
            None => {
                self.mode = Mode::Unlock;
                self.status = String::from_str("Vault is no longer unlocked.");
                Action::Idle
            },
            Some(u) => {
                let d = u.data_mut();
                let previous_updated = d.updated_unix;
                let previous_deleted = match find_by_id(&d.entries, id) {
                    Some(j) => d.entries[j].deleted_unix,
                    None => None,
                };
                match d.move_password_entry_to_deleted_at(id, now) {
                    Ok(_) => {
                        self.pending = Some(PendingChange::Deleted { id, previous_deleted, previous_updated });
                        Action::SaveVault
                    },
                    Err(e) => {
                        self.mode = Mode::Vault;
                        self.status = message_with_text("Could not delete password entry: ", e.as_str());
                        Action::Idle
                    },
                }
            },
        }
    }

    /// Restores the selected deleted entry at `now`.
    fn restore_selected_deleted_entry(&mut self, now: u64) -> (a: Action)
        ensures
            restore_requested(old(self)@, final(self)@, now, a),
    {
        let (id, previous_deleted) = match self.selected_deleted_entry() {
            None => {
                self.status = String::from_str("There is no deleted password entry selected to restore.");
                return Action::Idle;
            },
            Some(e) => (e.id, e.deleted_unix),
        };
        match &mut self.vault {
            None => {
                self.mode = Mode::Unlock;
                self.status = String::from_str("Vault is no longer unlocked.");
                Action::Idle
            },
            Some(u) => {
                let d = u.data_mut();
                let previous_updated = d.updated_unix;
                match d.restore_password_entry_at(id, now) {
                    Ok(()) => {
                        self.pending = Some(PendingChange::Restored { id, previous_deleted, previous_updated });
                        Action::SaveVault
                    },
                    Err(e) => {
                        self.status = message_with_text("Could not restore password entry: ", e.as_str());
                        Action::Idle
                    },
                }
            },
        }
    }

    /// Permanently deletes the confirmed deleted entry.
    fn permanently_delete_selected_entry(&mut self, now: u64) -> (a: Action)
        ensures
            purge_requested(old(self)@, final(self)@, now, a),
    {
        let id = match self.permanent_delete_entry_id {
            None => {
                self.mode = Mode::RecentlyDeleted;
                self.status = String::from_str("There is no deleted password entry selected to permanently delete.");
                return Action::Idle;
            },
            Some(id) => id,
        };
        match &mut self.vault {
            None => {
                self.permanent_delete_entry_id = None;
                self.mode = Mode::Unlock;
                self.status = String::from_str("Vault is no longer unlocked.");
                Action::Idle
            },
            Some(u) => {
                let d = u.data_mut();
                let previous_updated = d.updated_unix;
                match d.permanently_delete_password_entry_at(id, now) {
                    Ok((index, entry)) => {
                        self.pending = Some(PendingChange::Purged { id, index, entry, previous_updated });
                        Action::SaveVault
                    },
                    Err(e) => {
                        self.permanent_delete_entry_id = None;
                        self.mode = Mode::RecentlyDeleted;
                        self.status = message_with_text("Could not permanently delete password entry: ", e.as_str());
                        Action::Idle
                    },
                }
            },
        }
    }

    /// Permanently deletes every entry in Recently Deleted.
    fn empty_recently_deleted(&mut self, now: u64) -> (a: Action)
        ensures
            empty_requested(old(self)@, final(self)@, now, a),
    {
        if !self.empty_confirmation {
            self.mode = Mode::RecentlyDeleted;
            self.status = String::from_str("Recently Deleted empty confirmation is not active.");
            return Action::Idle;
        }
        match &mut self.vault {
            None => {
                self.empty_confirmation = false;
                self.mode = Mode::Unlock;
                self.status = String::from_str("Vault is no longer unlocked.");
                Action::Idle
            },
            Some(u) => {
                let d = u.data_mut();
                let previous_updated = d.updated_unix;
                let ghost old_entries = d.entries@;
                let removed = d.permanently_delete_all_deleted_entries_at(now);
                if removed.len() == 0 {
                    proof {
                        lemma_nothing_removed_keeps_all(old_entries, None, 0);
                        assert(old_entries.subrange(0, old_entries.len() as int) =~= old_entries);
                    }
                    self.empty_confirmation = false;
                    self.mode = Mode::RecentlyDeleted;
                    self.status = String::from_str("Recently Deleted is already empty.");
                    return Action::Idle;
                }
                self.pending = Some(PendingChange::Emptied { removed, previous_updated });
                Action::SaveVault
            },
        }
    }


    /// The active row of the first active entry with `id`, or 0.
    fn active_row(&self, id: u64) -> (n: usize)
        ensures
            n == active_row_of(self@, id),
    {
        match &self.vault {
            None => 0,
            Some(u) => {
                let d = u.data();
                match find_entry(&d.entries, id, false) {
                    None => 0,
                    Some(m) => {
                        proof {
                            reveal_strlit("");
                            assert(""@ =~= Seq::<char>::empty());
                        }
                        count_listed_to(&d.entries, "", false, m)
                    },
                }
            },
        }
    }

    /// Pulls the Recently Deleted selection back onto the last row.
    fn clamp_deleted_selection(&mut self)
        ensures
            final(self)@ == deleted_clamped(old(self)@),
    {
        let count = self.deleted_count();
        if self.deleted_selected >= count {
            self.deleted_selected = if count == 0 {
                0
            } else {
                count - 1
            };
        }
    }

    /// Takes the host's report on a `SaveVault` request.
    #[verifier::spinoff_prover]
    pub fn save_finished(&mut self, result: Result<(), String>) -> (a: Action)
        ensures
            (final(self)@, a) == save_reported(old(self)@, result),
    {
        if self.creating.is_some() {
            match result {
                Ok(()) => {
                    self.vault = self.creating.take();
                    zeroize_string(&mut self.input);
                    zeroize_string(&mut self.pending_password);
                    self.mode = Mode::Vault;
                    self.status = String::from_str("Vault created, encrypted, written to disk, and unlocked.");
                    return Action::Unlocked;
                },
                Err(e) => {
                    match self.creating.take() {
                        Some(u) => u.wipe(),
                        None => {},
                    }
                    self.status = message_with_text("Could not save the vault: ", e.as_str());
                    return Action::Idle;
                },
            }
        }
        let change = match self.pending.take() {
            None => return Action::Idle,
            Some(c) => c,
        };
        match result {
            Ok(()) => {
                match change {
                    PendingChange::Added { id, .. } => {
                        let n = self.filtered_active_count();
                        self.selected = if n == 0 {
                            0
                        } else {
                            n - 1
                        };
                        self.form.reset();
                        self.editing_entry_id = None;
                        self.mode = Mode::Vault;
                        self.status = message_with_number("Password entry #", id, " saved to the encrypted vault.");
                    },
                    PendingChange::Edited { id, title, username, password, url, notes, previous_updated } => {
                        discard_change(
                            PendingChange::Edited { id, title, username, password, url, notes, previous_updated },
                        );
                        self.form.reset();
                        self.editing_entry_id = None;
                        self.clamp_active_selection();
                        self.mode = Mode::Vault;
                        self.status = message_with_number("Password entry #", id, " updated in the encrypted vault.");
                    },
                    PendingChange::Deleted { id, .. } => {
                        self.clamp_active_selection();
                        self.mode = Mode::Vault;
                        self.status = message_with_number("Password entry #", id, " moved to Recently Deleted.");
                    },
                    PendingChange::Restored { id, .. } => {
                        self.selected = self.active_row(id);
                        self.clamp_deleted_selection();
                        self.status = message_with_number(
                            "Password entry #",
                            id,
                            " restored. Tab or Esc returns to the active vault.",
                        );
                    },
                    PendingChange::Purged { id, entry, .. } => {
                        entry.wipe();
                        self.clamp_deleted_selection();
                        self.permanent_delete_entry_id = None;
                        self.mode = Mode::RecentlyDeleted;
                        self.status = message_with_number("Password entry #", id, " permanently deleted.");
                    },
                    PendingChange::Emptied { removed, .. } => {
                        let count = removed.len();
                        let mut removed = removed;
                        while removed.len() > 0
                            decreases removed@.len(),
                        {
                            match removed.pop() {
                                Some(pair) => {
                                    let (_, entry) = pair;
                                    entry.wipe();
                                },
                                None => {},
                            }
                        }
                        self.deleted_selected = 0;
                        self.empty_confirmation = false;
                        self.mode = Mode::RecentlyDeleted;
                        self.status = message_with_number(
                            "Permanently deleted ",
                            count as u64,
                            " item(s) from Recently Deleted.",
                        );
                    },
                }
                Action::Idle
            },
            Err(e) => {
                match &change {
                    PendingChange::Added { .. } => {
                        self.status = message_with_text("Could not save password entry: ", e.as_str());
                    },
                    PendingChange::Edited { .. } => {
                        self.status = message_with_text("Could not save edited password entry: ", e.as_str());
                    },
                    PendingChange::Deleted { .. } => {
                        self.mode = Mode::Vault;
                        self.status = message_with_text("Could not save deleted password entry: ", e.as_str());
                    },
                    PendingChange::Restored { .. } => {
                        self.status = message_with_text("Could not save restored password entry: ", e.as_str());
                    },
                    PendingChange::Purged { .. } => {
                        self.permanent_delete_entry_id = None;
                        self.mode = Mode::RecentlyDeleted;
                        self.status = message_with_text("Could not save permanent deletion: ", e.as_str());
                    },
                    PendingChange::Emptied { .. } => {
                        self.empty_confirmation = false;
                        self.mode = Mode::RecentlyDeleted;
                        self.status = message_with_text(
                            "Could not save empty Recently Deleted operation: ",
                            e.as_str(),
                        );
                    },
                }
                match &mut self.vault {
                    Some(u) => roll_back(u.data_mut(), change),
                    None => {},
                }
                Action::Idle
            },
        }
    }

    /// Saves the entry form on the add or edit screen.
    fn save_entry_form(&mut self, now: u64) -> (a: Action)
        ensures
            entry_saved(old(self)@, final(self)@, now, a),
    {
        match self.mode {
            Mode::AddEntry => self.save_add_entry(now),
            Mode::EditEntry => self.save_edit_entry(now),
            _ => Action::Idle,
        }
    }

    /// Handles a key on the add and edit screens.
    fn handle_entry_form_key(&mut self, key: KeyInput, now: u64) -> (a: Action)
        ensures
            form_key_handled(old(self)@, final(self)@, key, now, a),
    {
        if is_delete_word_shortcut(&key, self.macos) {
            delete_previous_word(self.form.current_value_mut());
            return Action::Idle;
        }
        if is_clear_input_shortcut(&key, self.macos) {
            clear_text_input(self.form.current_value_mut());
            return Action::Idle;
        }
        if key.control && (key.code == KeyCode::Char('s') || key.code == KeyCode::Char('S')) {
            return self.save_entry_form(now);
        }
        match key.code {
            KeyCode::Esc => {
                let was_editing = self.mode == Mode::EditEntry;
                self.form.reset();
                self.editing_entry_id = None;
                self.mode = Mode::Vault;
                self.status = if was_editing {
                    String::from_str("Password edit cancelled.")
                } else {
                    String::from_str("New password entry cancelled.")
                };
                Action::Idle
            },
            KeyCode::Tab => {
                self.form.next_field();
                Action::Idle
            },
            KeyCode::BackTab => {
                self.form.previous_field();
                Action::Idle
            },
            KeyCode::Enter => {
                match self.form.field() {
                    AddField::Notes => self.save_entry_form(now),
                    _ => {
                        self.form.next_field();
                        Action::Idle
                    },
                }
            },
            KeyCode::Backspace => {
                let _ = string_pop(self.form.current_value_mut());
                Action::Idle
            },
            KeyCode::Char(c) => {
                if !key.control && !key.alt {
                    string_push(self.form.current_value_mut(), c);
                }
                Action::Idle
            },
            _ => Action::Idle,
        }
    }

    /// Handles a key on the delete confirmation.
    fn handle_delete_confirmation_key(&mut self, key: KeyInput, now: u64) -> (a: Action)
        ensures
            confirmation_key_handled(old(self)@, final(self)@, key, now, a),
    {
        let empty_all = self.empty_confirmation;
        let permanent = self.permanent_delete_entry_id.is_some();
        match key.code {
            KeyCode::Enter | KeyCode::Char('y') | KeyCode::Char('Y') => {
                if empty_all {
                    self.empty_recently_deleted(now)
                } else if permanent {
                    self.permanently_delete_selected_entry(now)
                } else {
                    self.move_selected_entry_to_deleted(now)
                }
            },
            KeyCode::Esc | KeyCode::Char('n') | KeyCode::Char('N') => {
                self.mode = if permanent || empty_all {
                    Mode::RecentlyDeleted
                } else {
                    Mode::Vault
                };
                self.permanent_delete_entry_id = None;
                self.empty_confirmation = false;
                self.status = String::from_str("Delete cancelled.");
                Action::Idle
            },
            _ => Action::Idle,
        }
    }

    /// Handles a key on the Recently Deleted screen.
    fn handle_recently_deleted_key(&mut self, key: KeyInput, now: u64) -> (a: Action)
        ensures
            deleted_key_handled(old(self)@, final(self)@, key, now, a),
    {
        match key.code {
            KeyCode::Char('q') => {
                self.should_quit = true;
                Action::Idle
            },
            KeyCode::Char('l') => self.lock_vault(),
            KeyCode::Tab | KeyCode::Esc => {
                self.mode = Mode::Vault;
                self.status = String::from_str("Returned to active vault.");
                Action::Idle
            },
            KeyCode::Char('r') | KeyCode::Char('R') => self.restore_selected_deleted_entry(now),
            KeyCode::Char('d') => {
                self.open_permanent_delete_confirmation();
                Action::Idle
            },
            KeyCode::Char('x') | KeyCode::Char('X') => {
                self.open_empty_recently_deleted_confirmation();
                Action::Idle
            },
            KeyCode::Up | KeyCode::Char('k') => {
                self.move_deleted_selection_up();
                Action::Idle
            },
            KeyCode::Down | KeyCode::Char('j') => {
                self.move_deleted_selection_down();
                Action::Idle
            },
            _ => Action::Idle,
        }
    }

    /// Handles a key event; `now` is the current Unix time, which stamps any
    /// change the key makes to the vault.
    #[verifier::spinoff_prover]
    pub fn handle_key(&mut self, key: KeyInput, now: u64) -> (a: Action)
        ensures
            key_handled(old(self)@, final(self)@, key, now, a),
    {
        if key.release {
            return Action::Idle;
        }
        if key.control && key.code == KeyCode::Char('c') {
            self.should_quit = true;
            return Action::Idle;
        }
        match self.mode {
            Mode::Vault => self.handle_vault_key(key),
            Mode::RecentlyDeleted => self.handle_recently_deleted_key(key, now),
            Mode::AddEntry | Mode::EditEntry => self.handle_entry_form_key(key, now),
            Mode::ConfirmDelete => self.handle_delete_confirmation_key(key, now),
            Mode::Create | Mode::Confirm | Mode::Unlock => self.handle_secret_key(key),
        }
    }

}

/// With distinct IDs, the first entry with an ID is the one that has it.
proof fn lemma_first_with_id_unique(s: Seq<PasswordEntry>, k: int, start: int)
    requires
        ids_distinct(s),
        0 <= start <= k < s.len(),
    ensures
        first_with_id_from(s, s[k].id, start) == k,
    decreases k - start,
{
    if start < k {
        assert(s[start].id != s[k].id);
        lemma_first_with_id_unique(s, k, start + 1);
    }
}

/// Changing one entry without changing its ID keeps IDs distinct.
proof fn lemma_update_keeps_ids_distinct(s: Seq<PasswordEntry>, k: int, e: PasswordEntry)
    requires
        ids_distinct(s),
        0 <= k < s.len(),
        e.id == s[k].id,
    ensures
        ids_distinct(s.update(k, e)),
{
    let t = s.update(k, e);
    assert forall|i: int, j: int| 0 <= i < t.len() && 0 <= j < t.len() && i != j implies #[trigger] t[i].id
        != #[trigger] t[j].id by {
        assert(t[i].id == s[i].id && t[j].id == s[j].id);
    }
}

/// A failed save takes an added entry back out.
proof fn lemma_add_undone(v: AppView, w: AppView, now: u64, e: Seq<char>)
    requires
        add_requested(v, w, now, Action::SaveVault),
    ensures
        w.pending is Some,
        w.creating == v.creating,
        save_failed(w, w.pending.unwrap(), e).vault == v.vault,
{
    let d = v.vault.unwrap();
    let nd = w.vault.unwrap();
    assert(nd.entries.drop_last() =~= d.entries);
}

/// A failed save gives an edited entry its old fields back.
proof fn lemma_edit_undone(v: AppView, w: AppView, now: u64, e: Seq<char>)
    requires
        edit_requested(v, w, now, Action::SaveVault),
        v.vault matches Some(d) && ids_distinct(d.entries),
    ensures
        w.pending is Some,
        w.creating == v.creating,
        save_failed(w, w.pending.unwrap(), e).vault == v.vault,
{
    let d = v.vault.unwrap();
    let nd = w.vault.unwrap();
    let id = v.editing_entry_id.unwrap();
    let k = first_match(d.entries, id, false);
    lemma_first_match_in_range(d.entries, id, false, 0);
    lemma_first_with_id_unique(d.entries, k, 0);
    lemma_update_keeps_ids_distinct(d.entries, k, nd.entries[k]);
    assert(nd.entries =~= d.entries.update(k, nd.entries[k]));
    lemma_first_with_id_unique(nd.entries, k, 0);
    let old = d.entries[k];
    assert(nd.entries.update(k, PasswordEntry { title: old.title, username: old.username, password: old.password, url: old.url, notes: old.notes, ..nd.entries[k] }) =~= d.entries);
}

/// A failed save brings a deleted entry back to the active list.
proof fn lemma_delete_undone(v: AppView, w: AppView, now: u64, e: Seq<char>)
    requires
        delete_requested(v, w, now, Action::SaveVault),
        v.vault matches Some(d) && ids_distinct(d.entries),
    ensures
        w.pending is Some,
        w.creating == v.creating,
        save_failed(w, w.pending.unwrap(), e).vault == v.vault,
{
    let d = v.vault.unwrap();
    let id = d.entries[selected_row(v)].id;
    let m = first_match(d.entries, id, false);
    lemma_first_match_in_range(d.entries, id, false, 0);
    lemma_first_with_id_unique(d.entries, m, 0);
    let ne = d.entries.update(m, PasswordEntry { deleted_unix: Some(now), ..d.entries[m] });
    lemma_update_keeps_ids_distinct(d.entries, m, ne[m]);
    lemma_first_with_id_unique(ne, m, 0);
    assert(ne.update(m, PasswordEntry { deleted_unix: d.entries[m].deleted_unix, ..ne[m] }) =~= d.entries);
}

/// A failed save sends a restored entry back to Recently Deleted.
proof fn lemma_restore_undone(v: AppView, w: AppView, now: u64, e: Seq<char>)
    requires
        restore_requested(v, w, now, Action::SaveVault),
        v.vault matches Some(d) && ids_distinct(d.entries),
    ensures
        w.pending is Some,
        w.creating == v.creating,
        save_failed(w, w.pending.unwrap(), e).vault == v.vault,
{
    let d = v.vault.unwrap();
    let k = selected_deleted_row(v);
    crate::listing::lemma_nth_listed(d.entries, Seq::empty(), true, v.deleted_selected as int, 0);
    let id = d.entries[k].id;
    lemma_first_match_unique(d.entries, id, true, k, 0);
    lemma_first_with_id_unique(d.entries, k, 0);
    let ne = d.entries.update(k, PasswordEntry { deleted_unix: None, ..d.entries[k] });
    lemma_update_keeps_ids_distinct(d.entries, k, ne[k]);
    lemma_first_with_id_unique(ne, k, 0);
    assert(ne.update(k, PasswordEntry { deleted_unix: d.entries[k].deleted_unix, ..ne[k] }) =~= d.entries);
}

/// A failed save puts a permanently deleted entry back where it was.
proof fn lemma_purge_undone(v: AppView, w: AppView, now: u64, e: Seq<char>)
    requires
        purge_requested(v, w, now, Action::SaveVault),
        v.vault matches Some(d) && d.entries.len() <= usize::MAX,
    ensures
        w.pending is Some,
        w.creating == v.creating,
        save_failed(w, w.pending.unwrap(), e).vault == v.vault,
{
    let d = v.vault.unwrap();
    let id = v.permanent_delete_entry_id.unwrap();
    let m = first_match(d.entries, id, true);
    lemma_first_match_in_range(d.entries, id, true, 0);
    assert(d.entries.remove(m).insert(m, d.entries[m]) =~= d.entries);
}

/// A failed save puts every entry of an emptied Recently Deleted back.
proof fn lemma_empty_undone(v: AppView, w: AppView, now: u64, e: Seq<char>)
    requires
        empty_requested(v, w, now, Action::SaveVault),
        v.vault matches Some(d) && d.entries.len() <= usize::MAX,
    ensures
        w.pending is Some,
        w.creating == v.creating,
        save_failed(w, w.pending.unwrap(), e).vault == v.vault,
{
    let d = v.vault.unwrap();
    lemma_reinsert_restores(d.entries, None);
}

/// A change to the vault that cannot be saved is taken back: when a key
/// changes the vault and asks for a save, and the save fails, the vault is
/// exactly as it was before the key (entries, their order and fields, and
/// the update time). IDs must be distinct, as the vault's own operations
/// keep them.
#[verifier::spinoff_prover]
pub proof fn lemma_failed_save_restores_vault(v: AppView, w: AppView, key: KeyInput, now: u64, e: String)
    requires
        v.creating is None,
        v.vault matches Some(d) ==> ids_distinct(d.entries) && d.entries.len() <= usize::MAX,
        key_handled(v, w, key, now, Action::SaveVault),
    ensures
        w.pending is Some,
        save_reported(w, Err(e)).0.vault == v.vault,
{
    let msg = e@;
    if !key.release && !(key.control && key.code == KeyCode::Char('c')) {
        match v.mode {
            Mode::AddEntry => lemma_add_undone(v, w, now, msg),
            Mode::EditEntry => lemma_edit_undone(v, w, now, msg),
            Mode::ConfirmDelete => {
                if v.empty_confirmation {
                    lemma_empty_undone(v, w, now, msg);
                } else if v.permanent_delete_entry_id is Some {
                    lemma_purge_undone(v, w, now, msg);
                } else {
                    lemma_delete_undone(v, w, now, msg);
                }
            },
            Mode::RecentlyDeleted => lemma_restore_undone(v, w, now, msg),
            _ => {},
        }
    }
}

/// Locking forgets the vault: whenever a key locks the vault, the vault, its
/// key and any pending change are gone, every secret buffer (master
/// password, confirmation, search query, entry form) is empty, and the
/// unlock screen is shown.
#[verifier::spinoff_prover]
pub proof fn lemma_lock_clears_secrets(v: AppView, w: AppView, key: KeyInput, now: u64)
    requires
        key_handled(v, w, key, now, Action::Locked),
    ensures
        w.vault is None,
        w.vault_keys is None,
        w.creating is None,
        w.pending is None,
        w.input.len() == 0,
        w.pending_password.len() == 0,
        w.search_query.len() == 0,
        w.form == empty_form(),
        w.mode == Mode::Unlock,
{
}

/// A vault is only created from the confirm screen, when the confirmation
/// matches the first entry of the master password; asking for it changes
/// nothing yet.
#[verifier::spinoff_prover]
pub proof fn lemma_creation_needs_matching_confirmation(v: AppView, w: AppView, key: KeyInput, now: u64)
    requires
        key_handled(v, w, key, now, Action::CreateVault),
    ensures
        v.mode == Mode::Confirm,
        v.input == v.pending_password,
        w == v,
{
}

/// Only the selected entry's non-empty username or password is ever copied,
/// and only from the vault screen.
#[verifier::spinoff_prover]
pub proof fn lemma_copy_takes_selected_field(v: AppView, w: AppView, key: KeyInput, now: u64, label: CopyLabel)
    requires
        key_handled(v, w, key, now, Action::Copy(label)),
    ensures
        v.mode == Mode::Vault,
        selected_row(v) != -1,
        copied_field(v.vault.unwrap().entries[selected_row(v)], label).len() > 0,
        w == v,
{
}

/// Keys on the vault screen never change the vault, except locking.
proof fn lemma_vault_screen_keeps_vault(v: AppView, w: AppView, key: KeyInput, a: Action)
    requires
        (w, a) == vault_key_step(v, key),
    ensures
        w.vault == v.vault || (a == Action::Locked && w.vault is None),
{
}

/// The master-password screens never change the vault.
proof fn lemma_secret_screens_keep_vault(v: AppView, w: AppView, key: KeyInput, a: Action)
    requires
        (w, a) == secret_key_step(v, key),
    ensures
        w.vault == v.vault,
{
}

/// On the entry form only a save changes the vault.
proof fn lemma_form_changes_are_saved(v: AppView, w: AppView, key: KeyInput, now: u64, a: Action)
    requires
        form_key_handled(v, w, key, now, a),
        a != Action::SaveVault,
    ensures
        w.vault == v.vault,
{
}

/// On the delete confirmation only a save changes the vault.
proof fn lemma_confirmation_changes_are_saved(v: AppView, w: AppView, key: KeyInput, now: u64, a: Action)
    requires
        confirmation_key_handled(v, w, key, now, a),
        a != Action::SaveVault,
    ensures
        w.vault == v.vault,
{
}

/// On Recently Deleted only a save changes the vault, except locking.
proof fn lemma_deleted_screen_changes_are_saved(v: AppView, w: AppView, key: KeyInput, now: u64, a: Action)
    requires
        deleted_key_handled(v, w, key, now, a),
        a != Action::SaveVault,
    ensures
        w.vault == v.vault || (a == Action::Locked && w.vault is None),
{
}

/// Every key that changes the vault asks for a save, except locking, which
/// drops the vault.
#[verifier::spinoff_prover]
pub proof fn lemma_vault_changes_are_saved(v: AppView, w: AppView, key: KeyInput, now: u64, a: Action)
    requires
        key_handled(v, w, key, now, a),
        a != Action::SaveVault,
    ensures
        w.vault == v.vault || (a == Action::Locked && w.vault is None),
{
    if !key.release && !(key.control && key.code == KeyCode::Char('c')) {
        match v.mode {
            Mode::Vault => lemma_vault_screen_keeps_vault(v, w, key, a),
            Mode::RecentlyDeleted => lemma_deleted_screen_changes_are_saved(v, w, key, now, a),
            Mode::AddEntry | Mode::EditEntry => lemma_form_changes_are_saved(v, w, key, now, a),
            Mode::ConfirmDelete => lemma_confirmation_changes_are_saved(v, w, key, now, a),
            Mode::Create | Mode::Confirm | Mode::Unlock => lemma_secret_screens_keep_vault(v, w, key, a),
        }
    }
}

/// The master password is not kept: once a vault is unlocked or created, the
/// typed password and its confirmation are wiped.
pub proof fn lemma_master_password_not_kept(v: AppView, outcome: UnlockOutcome, result: Result<(), String>)
    ensures
        outcome is Opened ==> unlock_reported(v, outcome).0.input.len() == 0 && unlock_reported(
            v,
            outcome,
        ).0.pending_password.len() == 0,
        v.creating is Some && result is Ok ==> save_reported(v, result).0.input.len() == 0 && save_reported(
            v,
            result,
        ).0.pending_password.len() == 0,
{
}

/// Whether both selections point at a row of their list (or at the top of
/// an empty list).
pub open spec fn selection_valid(v: AppView) -> bool {
    &&& (v.selected < shown_rows(v) || v.selected == 0)
    &&& (v.deleted_selected < deleted_rows(v) || v.deleted_selected == 0)
}

/// Whether a screen shows the Recently Deleted list.
pub open spec fn shows_deleted_list(v: AppView) -> bool {
    ||| v.mode == Mode::RecentlyDeleted
    ||| (v.mode == Mode::ConfirmDelete && (v.permanent_delete_entry_id is Some || v.empty_confirmation))
}

/// Whether the lists agree with the screen: both selections are on a row,
/// and while Recently Deleted is shown no search filters the active list.
pub open spec fn lists_consistent(v: AppView) -> bool {
    &&& selection_valid(v)
    &&& shows_deleted_list(v) ==> v.search_query.len() == 0
}

proof fn lemma_vault_screen_keeps_selection(v: AppView, w: AppView, key: KeyInput, a: Action)
    requires
        v.mode == Mode::Vault,
        lists_consistent(v),
        (w, a) == vault_key_step(v, key),
    ensures
        lists_consistent(w),
{
}

proof fn lemma_secret_screens_keep_selection(v: AppView, w: AppView, key: KeyInput, a: Action)
    requires
        v.mode == Mode::Create || v.mode == Mode::Confirm || v.mode == Mode::Unlock,
        lists_consistent(v),
        (w, a) == secret_key_step(v, key),
    ensures
        lists_consistent(w),
{
}

proof fn lemma_form_keeps_selection(v: AppView, w: AppView, key: KeyInput, now: u64, a: Action)
    requires
        v.mode == Mode::AddEntry || v.mode == Mode::EditEntry,
        lists_consistent(v),
        form_key_handled(v, w, key, now, a),
        a != Action::SaveVault,
    ensures
        lists_consistent(w),
{
}

proof fn lemma_confirmation_keeps_selection(v: AppView, w: AppView, key: KeyInput, now: u64, a: Action)
    requires
        v.mode == Mode::ConfirmDelete,
        lists_consistent(v),
        confirmation_key_handled(v, w, key, now, a),
        a != Action::SaveVault,
    ensures
        lists_consistent(w),
{
}

proof fn lemma_deleted_screen_keeps_selection(v: AppView, w: AppView, key: KeyInput, now: u64, a: Action)
    requires
        v.mode == Mode::RecentlyDeleted,
        lists_consistent(v),
        deleted_key_handled(v, w, key, now, a),
        a != Action::SaveVault,
    ensures
        lists_consistent(w),
{
}

/// Moving, searching, opening and closing screens, cancelling and locking
/// keep the lists consistent: every key that does not change the vault keeps
/// both selections on a row of their list, and no search filters the active
/// list while Recently Deleted is shown.
#[verifier::spinoff_prover]
pub proof fn lemma_selection_stays_in_lists(v: AppView, w: AppView, key: KeyInput, now: u64, a: Action)
    requires
        lists_consistent(v),
        key_handled(v, w, key, now, a),
        a != Action::SaveVault,
    ensures
        lists_consistent(w),
{
    if !key.release && !(key.control && key.code == KeyCode::Char('c')) {
        match v.mode {
            Mode::Vault => lemma_vault_screen_keeps_selection(v, w, key, a),
            Mode::RecentlyDeleted => lemma_deleted_screen_keeps_selection(v, w, key, now, a),
            Mode::AddEntry | Mode::EditEntry => lemma_form_keeps_selection(v, w, key, now, a),
            Mode::ConfirmDelete => lemma_confirmation_keeps_selection(v, w, key, now, a),
            Mode::Create | Mode::Confirm | Mode::Unlock => lemma_secret_screens_keep_selection(v, w, key, a),
        }
    }
}

/// A saved addition keeps the lists consistent.
proof fn lemma_add_saved(v: AppView, w: AppView, now: u64)
    requires
        v.mode == Mode::AddEntry,
        lists_consistent(v),
        add_requested(v, w, now, Action::SaveVault),
    ensures
        lists_consistent(saved(w, w.pending.unwrap())),
{
    let d = v.vault.unwrap();
    let nd = w.vault.unwrap();
    let x = nd.entries.last();
    assert(nd.entries == d.entries.push(x));
    lemma_list_len_push(d.entries, x, Seq::empty(), true);
}

/// A saved edit keeps the lists consistent.
proof fn lemma_edit_saved(v: AppView, w: AppView, now: u64)
    requires
        v.mode == Mode::EditEntry,
        lists_consistent(v),
        edit_requested(v, w, now, Action::SaveVault),
    ensures
        lists_consistent(saved(w, w.pending.unwrap())),
{
    let d = v.vault.unwrap();
    let nd = w.vault.unwrap();
    let id = v.editing_entry_id.unwrap();
    let k = first_match(d.entries, id, false);
    lemma_first_match_in_range(d.entries, id, false, 0);
    lemma_list_len_update(d.entries, k, nd.entries[k], Seq::empty(), true);
}

/// A saved move to Recently Deleted keeps the lists consistent.
proof fn lemma_delete_saved(v: AppView, w: AppView, now: u64)
    requires
        v.mode == Mode::ConfirmDelete,
        lists_consistent(v),
        delete_requested(v, w, now, Action::SaveVault),
    ensures
        lists_consistent(saved(w, w.pending.unwrap())),
{
    let d = v.vault.unwrap();
    let id = d.entries[selected_row(v)].id;
    let m = first_match(d.entries, id, false);
    lemma_first_match_in_range(d.entries, id, false, 0);
    lemma_list_len_update(
        d.entries,
        m,
        PasswordEntry { deleted_unix: Some(now), ..d.entries[m] },
        Seq::empty(),
        true,
    );
}

/// A saved restore keeps the lists consistent: the restored entry's row is
/// selected.
proof fn lemma_restore_saved(v: AppView, w: AppView, now: u64)
    requires
        v.mode == Mode::RecentlyDeleted,
        lists_consistent(v),
        restore_requested(v, w, now, Action::SaveVault),
    ensures
        lists_consistent(saved(w, w.pending.unwrap())),
{
    let d = v.vault.unwrap();
    let k = selected_deleted_row(v);
    crate::listing::lemma_nth_listed(d.entries, Seq::empty(), true, v.deleted_selected as int, 0);
    let id = d.entries[k].id;
    let m = first_match(d.entries, id, true);
    lemma_first_match_in_range(d.entries, id, true, 0);
    let ne = d.entries.update(m, PasswordEntry { deleted_unix: None, ..d.entries[m] });
    assert(entry_matches(ne[m], id, false));
    lemma_first_match_found(ne, id, false, m, 0);
    let r = first_match(ne, id, false);
    lemma_first_match_in_range(ne, id, false, 0);
    assert(v.search_query.len() == 0);
    assert(v.search_query =~= Seq::<char>::empty());
    assert(crate::listing::listed(ne[r], Seq::empty(), false));
    crate::listing::lemma_listed_count_monotone(ne, Seq::empty(), false, r + 1, ne.len() as int);
}

/// A saved permanent deletion keeps the lists consistent.
proof fn lemma_purge_saved(v: AppView, w: AppView, now: u64)
    requires
        v.mode == Mode::ConfirmDelete,
        lists_consistent(v),
        purge_requested(v, w, now, Action::SaveVault),
    ensures
        lists_consistent(saved(w, w.pending.unwrap())),
{
    let d = v.vault.unwrap();
    let id = v.permanent_delete_entry_id.unwrap();
    let m = first_match(d.entries, id, true);
    lemma_first_match_in_range(d.entries, id, true, 0);
    lemma_list_len_remove(d.entries, m, v.search_query, false);
}

/// A saved emptying of Recently Deleted keeps the lists consistent.
proof fn lemma_empty_saved(v: AppView, w: AppView, now: u64)
    requires
        v.mode == Mode::ConfirmDelete,
        lists_consistent(v),
        empty_requested(v, w, now, Action::SaveVault),
    ensures
        lists_consistent(saved(w, w.pending.unwrap())),
{
    let d = v.vault.unwrap();
    lemma_purge_keeps_active_rows(d.entries, None, v.search_query, 0);
    assert(d.entries.subrange(0, d.entries.len() as int) =~= d.entries);
}

/// Saving keeps the lists consistent: when a key changes the vault and the
/// save succeeds, or fails and the change is taken back, both selections stay
/// on a row of their list. IDs must be distinct, as the vault's operations
/// keep them.
#[verifier::spinoff_prover]
pub proof fn lemma_saves_keep_lists_consistent(
    v: AppView,
    w: AppView,
    key: KeyInput,
    now: u64,
    result: Result<(), String>,
)
    requires
        lists_consistent(v),
        v.creating is None,
        v.vault matches Some(d) ==> ids_distinct(d.entries) && d.entries.len() <= usize::MAX,
        key_handled(v, w, key, now, Action::SaveVault),
    ensures
        lists_consistent(save_reported(w, result).0),
{
    match result {
        Ok(_) => {
            if !key.release && !(key.control && key.code == KeyCode::Char('c')) {
                match v.mode {
                    Mode::AddEntry => lemma_add_saved(v, w, now),
                    Mode::EditEntry => lemma_edit_saved(v, w, now),
                    Mode::ConfirmDelete => {
                        if v.empty_confirmation {
                            lemma_empty_saved(v, w, now);
                        } else if v.permanent_delete_entry_id is Some {
                            lemma_purge_saved(v, w, now);
                        } else {
                            lemma_delete_saved(v, w, now);
                        }
                    },
                    Mode::RecentlyDeleted => lemma_restore_saved(v, w, now),
                    _ => {},
                }
            }
        },
        Err(e) => {
            lemma_failed_save_restores_vault(v, w, key, now, e);
        },
    }
}

/// The first index of an entry with `id` is found when some entry has it.
proof fn lemma_first_with_id_found(s: Seq<PasswordEntry>, id: u64, m: int, start: int)
    requires
        0 <= start <= m < s.len(),
        s[m].id == id,
    ensures
        first_with_id_from(s, id, start) != -1,
    decreases m - start,
{
    if start < m && s[start].id != id {
        lemma_first_with_id_found(s, id, m, start + 1);
    }
}

/// Up (or `k` outside the search box) on the vault screen moves the
/// selection exactly one row up, staying on the top row there, and changes
/// nothing else that matters: the vault, the screen and the search.
pub proof fn lemma_up_moves_one_row(v: AppView, w: AppView, key: KeyInput, now: u64, a: Action)
    requires
        key_handled(v, w, key, now, a),
        v.mode == Mode::Vault,
        !key.release,
        key.code == KeyCode::Up || (key.code == KeyCode::Char('k') && !v.search_editing),
    ensures
        w.selected as int == if v.selected > 0 {
            v.selected - 1
        } else {
            0
        },
        a == Action::Idle,
        w.vault == v.vault,
        w.mode == Mode::Vault,
        w.search_query == v.search_query,
        w.deleted_selected == v.deleted_selected,
{
}

/// Down (or `j` outside the search box) on the vault screen moves the
/// selection exactly one row down while there is a row below, and otherwise
/// leaves it where it is.
pub proof fn lemma_down_moves_one_row(v: AppView, w: AppView, key: KeyInput, now: u64, a: Action)
    requires
        key_handled(v, w, key, now, a),
        v.mode == Mode::Vault,
        !key.release,
        key.code == KeyCode::Down || (key.code == KeyCode::Char('j') && !v.search_editing),
        v.vault is Some ==> v.vault.unwrap().entries.len() <= usize::MAX,
    ensures
        w.selected as int == if v.selected + 1 < list_len(v.vault.unwrap().entries, v.search_query, false)
            && v.vault is Some {
            v.selected + 1
        } else {
            v.selected as int
        },
        a == Action::Idle,
        w.vault == v.vault,
        w.mode == Mode::Vault,
        w.search_query == v.search_query,
{
    if v.vault is Some {
        assert(shown_rows(v) == list_len(v.vault.unwrap().entries, v.search_query, false));
        crate::listing::lemma_listed_count_bounds(
            v.vault.unwrap().entries,
            v.search_query,
            false,
            v.vault.unwrap().entries.len() as int,
        );
    } else {
        assert(shown_rows(v) == 0);
    }
}

/// Up and Down (or `k` and `j`) on Recently Deleted move its selection
/// exactly one row, staying on the first and last rows.
pub proof fn lemma_deleted_selection_moves_one_row(v: AppView, w: AppView, key: KeyInput, now: u64, a: Action)
    requires
        key_handled(v, w, key, now, a),
        v.mode == Mode::RecentlyDeleted,
        !key.release,
        key.code == KeyCode::Up || key.code == KeyCode::Char('k') || key.code == KeyCode::Down || key.code
            == KeyCode::Char('j'),
        v.vault is Some ==> v.vault.unwrap().entries.len() <= usize::MAX,
    ensures
        (key.code == KeyCode::Up || key.code == KeyCode::Char('k')) ==> w.deleted_selected as int == if v.deleted_selected
            > 0 {
            v.deleted_selected - 1
        } else {
            0
        },
        (key.code == KeyCode::Down || key.code == KeyCode::Char('j')) ==> w.deleted_selected as int == if v.vault
            is Some && v.deleted_selected + 1 < list_len(v.vault.unwrap().entries, Seq::empty(), true) {
            v.deleted_selected + 1
        } else {
            v.deleted_selected as int
        },
        a == Action::Idle,
        w.vault == v.vault,
        w.mode == Mode::RecentlyDeleted,
        w.selected == v.selected,
{
    if v.vault is Some {
        assert(deleted_rows(v) == list_len(v.vault.unwrap().entries, Seq::empty(), true));
        crate::listing::lemma_listed_count_bounds(
            v.vault.unwrap().entries,
            Seq::empty(),
            true,
            v.vault.unwrap().entries.len() as int,
        );
    } else {
        assert(deleted_rows(v) == 0);
    }
}

/// `e` on the vault screen with an entry selected opens the edit form
/// filled with every field of that entry, the password included, focused on
/// the title, and remembers which entry is being edited; the vault is not
/// touched.
pub proof fn lemma_edit_loads_selected_entry(v: AppView, w: AppView, key: KeyInput, now: u64, a: Action)
    requires
        key_handled(v, w, key, now, a),
        v.mode == Mode::Vault,
        !v.search_editing,
        !key.release,
        key.code == KeyCode::Char('e'),
        v.vault is Some,
        selected_row(v) != -1,
    ensures
        ({
            let e = v.vault.unwrap().entries[selected_row(v)];
            &&& w.mode == Mode::EditEntry
            &&& w.editing_entry_id == Some(e.id)
            &&& w.form.field == AddField::Title
            &&& w.form.title == e.title@
            &&& w.form.username == e.username@
            &&& w.form.password == e.password@
            &&& w.form.url == e.url@
            &&& w.form.notes == e.notes@
        }),
        w.vault == v.vault,
        a == Action::Idle,
{
}

/// Editing an entry and saving it straight away keeps what it stores: after
/// `e` and then Ctrl+S, a save is asked for and the vault holds, in place of
/// the entry, one with the same ID, username, password, URL and notes and
/// the trimmed title. Opening the editor never loses the stored password.
pub proof fn lemma_edit_then_save_keeps_entry(
    v: AppView,
    w1: AppView,
    w2: AppView,
    k1: KeyInput,
    k2: KeyInput,
    now1: u64,
    now2: u64,
    a1: Action,
    a2: Action,
)
    requires
        v.mode == Mode::Vault,
        !v.search_editing,
        v.vault is Some,
        selected_row(v) != -1,
        trimmed(v.vault.unwrap().entries[selected_row(v)].title@).len() > 0,
        !k1.release,
        k1.code == KeyCode::Char('e'),
        key_handled(v, w1, k1, now1, a1),
        !k2.release,
        k2.control,
        k2.code == KeyCode::Char('s'),
        key_handled(w1, w2, k2, now2, a2),
    ensures
        ({
            let d = v.vault.unwrap();
            let e = d.entries[selected_row(v)];
            let k = first_match(d.entries, e.id, false);
            &&& a2 == Action::SaveVault
            &&& 0 <= k < d.entries.len()
            &&& w2.vault matches Some(nd) && {
                &&& nd.entries.len() == d.entries.len()
                &&& nd.entries[k].id == e.id
                &&& nd.entries[k].title@ == trimmed(e.title@)
                &&& nd.entries[k].username@ == e.username@
                &&& nd.entries[k].password@ == e.password@
                &&& nd.entries[k].url@ == e.url@
                &&& nd.entries[k].notes@ == e.notes@
                &&& nd.entries[k].deleted_unix is None
                &&& forall|i: int| 0 <= i < d.entries.len() && i != k ==> nd.entries[i] == d.entries[i]
            }
        }),
{
    let d = v.vault.unwrap();
    let r = selected_row(v);
    let e = d.entries[r];
    crate::listing::lemma_nth_listed(d.entries, v.search_query, false, v.selected as int, 0);
    assert(0 <= r < d.entries.len());
    assert(entry_matches(e, e.id, false));
    lemma_first_match_found(d.entries, e.id, false, r, 0);
    lemma_first_match_in_range(d.entries, e.id, false, 0);
    lemma_first_with_id_found(d.entries, e.id, r, 0);
}

/// Enter on a form field other than Notes only moves the focus to the next
/// field (title, username, password, URL, notes): nothing is saved, the
/// vault and every typed field stay as they were.
pub proof fn lemma_enter_moves_to_next_field(v: AppView, w: AppView, key: KeyInput, now: u64, a: Action)
    requires
        key_handled(v, w, key, now, a),
        v.mode == Mode::AddEntry || v.mode == Mode::EditEntry,
        !key.release,
        key.code == KeyCode::Enter,
        v.form.field != AddField::Notes,
    ensures
        a == Action::Idle,
        w.vault == v.vault,
        w.pending == v.pending,
        w.mode == v.mode,
        w.form.field == match v.form.field {
            AddField::Title => AddField::Username,
            AddField::Username => AddField::Password,
            AddField::Password => AddField::Url,
            _ => AddField::Notes,
        },
        w.form.title == v.form.title,
        w.form.username == v.form.username,
        w.form.password == v.form.password,
        w.form.url == v.form.url,
        w.form.notes == v.form.notes,
{
}

/// Enter on the Notes field of the add form, with a title that is not blank,
/// adds one entry holding the form's fields (the title trimmed) after the
/// existing ones and asks for a save.
pub proof fn lemma_enter_on_notes_adds_entry(v: AppView, w: AppView, key: KeyInput, now: u64, a: Action)
    requires
        key_handled(v, w, key, now, a),
        v.mode == Mode::AddEntry,
        !key.release,
        key.code == KeyCode::Enter,
        v.form.field == AddField::Notes,
        trimmed(v.form.title).len() > 0,
        v.vault is Some,
        max_id(v.vault.unwrap().entries) < u64::MAX,
    ensures
        a == Action::SaveVault,
        w.vault matches Some(nd) && {
            let d = v.vault.unwrap();
            &&& nd.entries.len() == d.entries.len() + 1
            &&& nd.entries.subrange(0, d.entries.len() as int) == d.entries
            &&& nd.entries.last().title@ == trimmed(v.form.title)
            &&& nd.entries.last().username@ == v.form.username
            &&& nd.entries.last().password@ == v.form.password
            &&& nd.entries.last().url@ == v.form.url
            &&& nd.entries.last().notes@ == v.form.notes
            &&& nd.entries.last().deleted_unix is None
        },
{
    let d = v.vault.unwrap();
    let nd = w.vault.unwrap();
    assert(nd.entries.subrange(0, d.entries.len() as int) =~= d.entries);
}

} // verus!
