//! What each screen shows, as text: which panels are drawn, list rows,
//! titles, detail lines, prompts and key hints. The terminal host lays these
//! out and colours them; secrets only ever appear masked.
use vstd::prelude::*;

use crate::app::{active_rows, deleted_rows, selected_deleted_row, selected_row, shown_rows, App, AppView, Mode};
use crate::calendar::{format_unix_timestamp, timestamp_text};
use crate::form::AddField;
use crate::listing::{
    entries_alike, lemma_alike_counts, lemma_alike_rows, lemma_nth_listed_range, shown_alike, is_listed, lemma_nth_listed, lemma_listed_count_bounds, lemma_nth_listed_at, list_len, listed, listed_count, nth_listed,
};
use crate::model::PasswordEntry;
use crate::text::{decimal_text, message_with_number, message_with_text, push_decimal, string_push};

verus! {

/// `n` bullet characters, which stand for `n` hidden characters.
pub open spec fn bullets(n: nat) -> Seq<char> {
    Seq::new(n, |i: int| '•')
}

/// One bullet per character of `text`.
pub fn masked(text: &str) -> (m: String)
    ensures
        m@ == bullets(text@.len()),
{
    let n = crate::text::chars_of(text).len();
    let mut m = String::new();
    let mut i: usize = 0;
    while i < n
        invariant
            i <= n,
            n == text@.len(),
            m@ == bullets(i as nat),
        decreases n - i,
    {
        string_push(&mut m, '•');
        i = i + 1;
        assert(m@ =~= bullets(i as nat));
    }
    m
}

/// A row of an entry list: whether it is the selected row, its ID label and
/// the entry's title.
pub struct ListRow {
    pub selected: bool,
    pub label: String,
    pub title: String,
}

/// The label of a row: the entry's ID.
pub open spec fn row_label(id: u64) -> Seq<char> {
    "#"@ + decimal_text(id as nat) + "  "@
}

/// Whether a row shows an entry.
pub open spec fn row_shows(r: ListRow, e: PasswordEntry, selected: bool) -> bool {
    &&& r.selected == selected
    &&& r.label@ == row_label(e.id)
    &&& r.title@ == e.title@
}

/// A row as text: whether it is selected, its label and its title.
pub open spec fn row_text(e: PasswordEntry, selected: bool) -> (bool, Seq<char>, Seq<char>) {
    (selected, row_label(e.id), e.title@)
}

/// What a row holds, as text.
pub open spec fn row_view(r: ListRow) -> (bool, Seq<char>, Seq<char>) {
    (r.selected, r.label@, r.title@)
}

/// The rows of the active list as text, in vault order.
pub open spec fn vault_rows_text(v: AppView) -> Seq<(bool, Seq<char>, Seq<char>)> {
    match v.vault {
        Some(d) => Seq::new(
            shown_rows(v),
            |i: int| row_text(d.entries[nth_listed(d.entries, v.search_query, false, i)], i == v.selected),
        ),
        None => Seq::empty(),
    }
}

/// The rows of Recently Deleted as text, in vault order.
pub open spec fn deleted_rows_text(v: AppView) -> Seq<(bool, Seq<char>, Seq<char>)> {
    match v.vault {
        Some(d) => Seq::new(
            deleted_rows(v),
            |i: int| row_text(d.entries[nth_listed(d.entries, Seq::empty(), true, i)], i == v.deleted_selected),
        ),
        None => Seq::empty(),
    }
}

/// The rows of a list, in vault order; row `selected` is marked.
pub fn list_rows(entries: &Vec<PasswordEntry>, query: &str, deleted: bool, selected: usize) -> (rows: Vec<ListRow>)
    ensures
        rows@.len() == list_len(entries@, query@, deleted),
        forall|i: int|
            0 <= i < rows@.len() ==> row_shows(
                #[trigger] rows@[i],
                entries@[nth_listed(entries@, query@, deleted, i)],
                i == selected,
            ),
{
    let ghost s = entries@;
    let ghost q = query@;
    let mut rows: Vec<ListRow> = Vec::new();
    let mut i: usize = 0;
    while i < entries.len()
        invariant
            i <= s.len(),
            s == entries@,
            q == query@,
            rows@.len() == listed_count(s, q, deleted, i as int),
            forall|r: int|
                0 <= r < rows@.len() ==> row_shows(
                    #[trigger] rows@[r],
                    s[nth_listed(s, q, deleted, r)],
                    r == selected,
                ),
        decreases s.len() - i,
    {
        proof {
            lemma_listed_count_bounds(s, q, deleted, i as int);
        }
        if is_listed(&entries[i], query, deleted) {
            proof {
                lemma_nth_listed_at(s, q, deleted, i as int, 0);
            }
            let row = ListRow {
                selected: rows.len() == selected,
                label: message_with_number("#", entries[i].id, "  "),
                title: entries[i].title.clone(),
            };
            rows.push(row);
        }
        i = i + 1;
    }
    rows
}

/// The rows of the active list shown on the vault screen.
pub fn vault_rows(app: &App) -> (rows: Vec<ListRow>)
    ensures
        rows@.map_values(|r: ListRow| row_view(r)) == vault_rows_text(app@),
        match app@.vault {
            Some(d) => {
                &&& rows@.len() == shown_rows(app@)
                &&& forall|i: int|
                    0 <= i < rows@.len() ==> row_shows(
                        #[trigger] rows@[i],
                        d.entries[nth_listed(d.entries, app@.search_query, false, i)],
                        i == app@.selected,
                    )
            },
            None => rows@.len() == 0,
        },
{
    match app.vault() {
        None => Vec::new(),
        Some(u) => {
            let rows = list_rows(&u.data().entries, app.search_query(), false, app.selected_index());
            assert(rows@.map_values(|r: ListRow| row_view(r)) =~= vault_rows_text(app@));
            rows
        },
    }
}

/// The rows of Recently Deleted.
pub fn deleted_rows_of(app: &App) -> (rows: Vec<ListRow>)
    ensures
        rows@.map_values(|r: ListRow| row_view(r)) == deleted_rows_text(app@),
        match app@.vault {
            Some(d) => {
                &&& rows@.len() == deleted_rows(app@)
                &&& forall|i: int|
                    0 <= i < rows@.len() ==> row_shows(
                        #[trigger] rows@[i],
                        d.entries[nth_listed(d.entries, Seq::empty(), true, i)],
                        i == app@.deleted_selected,
                    )
            },
            None => rows@.len() == 0,
        },
{
    match app.vault() {
        None => Vec::new(),
        Some(u) => {
            proof {
                reveal_strlit("");
                assert(""@ =~= Seq::<char>::empty());
            }
            let rows = list_rows(&u.data().entries, "", true, app.deleted_selected_index());
            assert(rows@.map_values(|r: ListRow| row_view(r)) =~= deleted_rows_text(app@));
            rows
        },
    }
}

/// The title of the active list: counts, and while searching the query,
/// which is shown after `text` when present.
pub struct ListTitle {
    pub text: String,
    pub query: Option<String>,
}

/// The active list's title text.
pub open spec fn vault_title_text(v: AppView) -> Seq<char> {
    if v.search_editing || v.search_query.len() != 0 {
        " Vault  "@ + decimal_text(shown_rows(v)) + "/"@ + decimal_text(active_rows(v)) + " match  /  "@
            + decimal_text(deleted_rows(v)) + " deleted  |  Search: "@
    } else {
        " Vault  "@ + decimal_text(active_rows(v)) + " active  /  "@ + decimal_text(deleted_rows(v))
            + " deleted "@
    }
}

/// The title of the active list.
pub fn vault_title(app: &App) -> (t: ListTitle)
    ensures
        t.text@ == vault_title_text(app@),
        match t.query {
            Some(q) => (app@.search_editing || app@.search_query.len() != 0) && q@ == app@.search_query,
            None => !(app@.search_editing || app@.search_query.len() != 0),
        },
{
    let active = app.active_count();
    let matching = app.filtered_active_count();
    let deleted = app.deleted_count();
    if app.search_editing() || !app.search_query().is_empty() {
        let mut text = message_with_number(" Vault  ", matching as u64, "/");
        push_decimal(&mut text, active as u64);
        text.append(" match  /  ");
        push_decimal(&mut text, deleted as u64);
        text.append(" deleted  |  Search: ");
        ListTitle { text, query: Some(String::from_str(app.search_query())) }
    } else {
        let mut text = message_with_number(" Vault  ", active as u64, " active  /  ");
        push_decimal(&mut text, deleted as u64);
        text.append(" deleted ");
        ListTitle { text, query: None }
    }
}

/// Why the active list has no rows, when it has none: the search matches
/// nothing, or the vault is empty.
#[derive(Clone, Copy, Debug, PartialEq, Eq, Structural)]
pub enum EmptyList {
    NoMatch,
    NoEntries,
}

/// Why the active list is empty, if it is.
pub fn vault_list_empty(app: &App) -> (e: Option<EmptyList>)
    ensures
        e == if shown_rows(app@) != 0 {
            None
        } else if active_rows(app@) != 0 {
            Some(EmptyList::NoMatch)
        } else {
            Some(EmptyList::NoEntries)
        },
{
    if app.filtered_active_count() != 0 {
        None
    } else if app.active_count() != 0 {
        Some(EmptyList::NoMatch)
    } else {
        Some(EmptyList::NoEntries)
    }
}

/// The title of Recently Deleted.
pub fn deleted_title(app: &App) -> (t: String)
    ensures
        t@ == " Recently Deleted  "@ + decimal_text(deleted_rows(app@)) + " item(s) "@,
{
    message_with_number(" Recently Deleted  ", app.deleted_count() as u64, " item(s) ")
}

/// The fields of an entry as the details panel shows them; the password
/// only as bullets.
pub struct EntryDetails {
    pub title: String,
    pub username: String,
    pub password: String,
    pub url: String,
    pub notes: String,
}

/// The details panel of an entry as text: title, username, the password as
/// one bullet per character, URL and notes.
pub open spec fn details_text(e: PasswordEntry) -> Seq<Seq<char>> {
    seq![e.title@, e.username@, bullets(e.password@.len()), e.url@, e.notes@]
}

/// What a details panel holds, as text.
pub open spec fn details_view(d: EntryDetails) -> Seq<Seq<char>> {
    seq![d.title@, d.username@, d.password@, d.url@, d.notes@]
}

/// The details of the selected active entry, if one is selected.
pub open spec fn selected_details(v: AppView) -> Option<Seq<Seq<char>>> {
    if selected_row(v) != -1 {
        Some(details_text(v.vault.unwrap().entries[selected_row(v)]))
    } else {
        None
    }
}

/// The details of the selected Recently Deleted entry and when it was
/// deleted, if one is selected.
pub open spec fn selected_deleted_details(v: AppView) -> Option<(Seq<Seq<char>>, Option<u64>)> {
    if selected_deleted_row(v) != -1 {
        let e = v.vault.unwrap().entries[selected_deleted_row(v)];
        Some((details_text(e), e.deleted_unix))
    } else {
        None
    }
}

/// The details of an entry.
pub fn entry_details(e: &PasswordEntry) -> (d: EntryDetails)
    ensures
        details_view(d) == details_text(*e),
        d.title@ == e.title@,
        d.username@ == e.username@,
        d.password@ == bullets(e.password@.len()),
        d.url@ == e.url@,
        d.notes@ == e.notes@,
{
    EntryDetails {
        title: e.title.clone(),
        username: e.username.clone(),
        password: masked(e.password.as_str()),
        url: e.url.clone(),
        notes: e.notes.clone(),
    }
}

/// The auto-lock setting as text.
pub open spec fn auto_lock_text(secs: Option<u64>) -> Seq<char> {
    match secs {
        Some(s) => decimal_text(s as nat) + " seconds inactivity"@,
        None => "Disabled"@,
    }
}

/// The auto-lock setting as text.
pub fn auto_lock_description(secs: Option<u64>) -> (t: String)
    ensures
        t@ == auto_lock_text(secs),
{
    match secs {
        Some(s) => {
            let mut t = String::new();
            push_decimal(&mut t, s);
            t.append(" seconds inactivity");
            t
        },
        None => String::from_str("Disabled"),
    }
}

/// When a deleted entry was deleted, as text.
pub fn deleted_at_text(deleted_unix: Option<u64>) -> (t: String)
    ensures
        t@ == match deleted_unix {
            Some(s) => timestamp_text(s as nat),
            None => "Unknown"@,
        },
{
    match deleted_unix {
        Some(s) => format_unix_timestamp(s),
        None => String::from_str("Unknown"),
    }
}

/// The lines describing an unlocked vault when no entry is selected.
pub open spec fn vault_info_text(v: AppView, path: Seq<char>) -> Seq<Seq<char>> {
    let d = v.vault.unwrap();
    let k = v.vault_keys.unwrap().1;
    seq![
        "Format      BRPASS01 / payload v"@ + decimal_text(d.format_version as nat),
        "KDF         Argon2id  m="@ + decimal_text(k.memory_kib as nat) + " KiB  t="@ + decimal_text(
            k.iterations as nat,
        ) + "  p="@ + decimal_text(k.parallelism as nat),
        "Cipher      XChaCha20-Poly1305"@,
        "Created     "@ + decimal_text(d.created_unix as nat),
        "Updated     "@ + decimal_text(d.updated_unix as nat),
        "Vault file  "@ + path,
        "Auto-lock   "@ + auto_lock_text(v.auto_lock_secs),
    ]
}

/// The lines describing the unlocked vault stored at `path`.
pub fn vault_info(app: &App, path: &str) -> (lines: Vec<String>)
    ensures
        app@.vault is Some ==> lines@.len() == 7 && forall|i: int|
            0 <= i < 7 ==> #[trigger] lines@[i]@ == vault_info_text(app@, path@)[i],
        app@.vault is None ==> lines@.len() == 0,
{
    let u = match app.vault() {
        None => return Vec::new(),
        Some(u) => u,
    };
    let d = u.data();
    let k = u.kdf();
    let mut lines: Vec<String> = Vec::new();
    lines.push(message_with_number("Format      BRPASS01 / payload v", d.format_version as u64, ""));
    let mut kdf = message_with_number("KDF         Argon2id  m=", k.memory_kib as u64, " KiB  t=");
    push_decimal(&mut kdf, k.iterations as u64);
    kdf.append("  p=");
    push_decimal(&mut kdf, k.parallelism as u64);
    lines.push(kdf);
    lines.push(String::from_str("Cipher      XChaCha20-Poly1305"));
    lines.push(message_with_number("Created     ", d.created_unix, ""));
    lines.push(message_with_number("Updated     ", d.updated_unix, ""));
    lines.push(message_with_text("Vault file  ", path));
    let auto = auto_lock_description(app.auto_lock_seconds());
    lines.push(message_with_text("Auto-lock   ", auto.as_str()));
    proof {
        reveal_strlit("");
        assert(""@ =~= Seq::<char>::empty());
        assert(lines@[0]@ =~= vault_info_text(app@, path@)[0]);
        assert(lines@[3]@ =~= vault_info_text(app@, path@)[3]);
        assert(lines@[4]@ =~= vault_info_text(app@, path@)[4]);
    }
    lines
}

/// The panel drawn underneath.
#[derive(Clone, Copy, Debug, PartialEq, Eq, Structural)]
pub enum Backdrop {
    Nothing,
    Vault,
    RecentlyDeleted,
}

/// The dialog drawn on top.
#[derive(Clone, Copy, Debug, PartialEq, Eq, Structural)]
pub enum Overlay {
    Nothing,
    MasterPassword,
    EntryForm,
    MoveToDeleted,
    DeleteForever,
    EmptyRecentlyDeleted,
}

/// The panels of a screen.
pub open spec fn panels_of(v: AppView) -> (Backdrop, Overlay) {
    match v.mode {
        Mode::Vault => (Backdrop::Vault, Overlay::Nothing),
        Mode::RecentlyDeleted => (Backdrop::RecentlyDeleted, Overlay::Nothing),
        Mode::AddEntry | Mode::EditEntry => (Backdrop::Vault, Overlay::EntryForm),
        Mode::ConfirmDelete => if v.empty_confirmation {
            (Backdrop::RecentlyDeleted, Overlay::EmptyRecentlyDeleted)
        } else if v.permanent_delete_entry_id is Some {
            (Backdrop::RecentlyDeleted, Overlay::DeleteForever)
        } else {
            (Backdrop::Vault, Overlay::MoveToDeleted)
        },
        Mode::Create | Mode::Confirm | Mode::Unlock => (Backdrop::Nothing, Overlay::MasterPassword),
    }
}

/// The panels the current screen draws.
pub fn panels(app: &App) -> (p: (Backdrop, Overlay))
    ensures
        p == panels_of(app@),
{
    match app.mode() {
        Mode::Vault => (Backdrop::Vault, Overlay::Nothing),
        Mode::RecentlyDeleted => (Backdrop::RecentlyDeleted, Overlay::Nothing),
        Mode::AddEntry | Mode::EditEntry => (Backdrop::Vault, Overlay::EntryForm),
        Mode::ConfirmDelete => {
            if app.is_empty_recently_deleted_confirmation() {
                (Backdrop::RecentlyDeleted, Overlay::EmptyRecentlyDeleted)
            } else if app.is_permanent_delete_confirmation() {
                (Backdrop::RecentlyDeleted, Overlay::DeleteForever)
            } else {
                (Backdrop::Vault, Overlay::MoveToDeleted)
            }
        },
        Mode::Create | Mode::Confirm | Mode::Unlock => (Backdrop::Nothing, Overlay::MasterPassword),
    }
}

/// The title, explanation and key hint of a master-password screen.
pub open spec fn secret_texts_of(mode: Mode) -> Option<(Seq<char>, Seq<char>, Seq<char>)> {
    match mode {
        Mode::Create => Some(
            (
                " Create vault "@,
                "Choose the master password that will derive your vault encryption key."@,
                "Minimum 12 characters  •  Enter continue  •  Esc quit"@,
            ),
        ),
        Mode::Confirm => Some(
            (
                " Confirm master password "@,
                "Type it again. BarePass never writes the master password to disk."@,
                "Enter create vault  •  Esc start over"@,
            ),
        ),
        Mode::Unlock => Some(
            (
                " Unlock BarePass "@,
                "Enter your master password to decrypt the local vault."@,
                "Enter unlock  •  Esc quit"@,
            ),
        ),
        _ => None,
    }
}

/// The title, explanation and key hint of a master-password screen.
pub fn secret_texts(mode: Mode) -> (t: Option<(&'static str, &'static str, &'static str)>)
    ensures
        match t {
            Some((a, b, c)) => secret_texts_of(mode) == Some((a@, b@, c@)),
            None => secret_texts_of(mode) is None,
        },
{
    match mode {
        Mode::Create => Some(
            (
                " Create vault ",
                "Choose the master password that will derive your vault encryption key.",
                "Minimum 12 characters  •  Enter continue  •  Esc quit",
            ),
        ),
        Mode::Confirm => Some(
            (
                " Confirm master password ",
                "Type it again. BarePass never writes the master password to disk.",
                "Enter create vault  •  Esc start over",
            ),
        ),
        Mode::Unlock => Some(
            (
                " Unlock BarePass ",
                "Enter your master password to decrypt the local vault.",
                "Enter unlock  •  Esc quit",
            ),
        ),
        _ => None,
    }
}

/// The master password as the screen shows it: one bullet per character, or
/// a blank while nothing is typed.
pub fn masked_input(app: &App) -> (m: String)
    ensures
        m@ == if app@.input.len() == 0 {
            " "@
        } else {
            bullets(app@.input.len())
        },
{
    let m = masked(app.secret_input());
    if m.as_str().is_empty() {
        String::from_str(" ")
    } else {
        m
    }
}

/// The title and explanation of the entry form.
pub fn form_texts(mode: Mode) -> (t: Option<(&'static str, &'static str)>)
    ensures
        match mode {
            Mode::AddEntry => t matches Some((a, b)) && a@ == " Add password "@ && b@
                == "Create a login entry. Only the title is required."@,
            Mode::EditEntry => t matches Some((a, b)) && a@ == " Edit password "@ && b@
                == "Update the selected login entry. Its vault ID will stay the same."@,
            _ => t is None,
        },
{
    match mode {
        Mode::AddEntry => Some((" Add password ", "Create a login entry. Only the title is required.")),
        Mode::EditEntry => Some(
            (" Edit password ", "Update the selected login entry. Its vault ID will stay the same."),
        ),
        _ => None,
    }
}

/// The label of a form field.
pub fn field_label(field: AddField) -> (l: &'static str)
    ensures
        l@ == match field {
            AddField::Title => " Title "@,
            AddField::Username => " Username "@,
            AddField::Password => " Password "@,
            AddField::Url => " URL "@,
            AddField::Notes => " Notes "@,
        },
{
    match field {
        AddField::Title => " Title ",
        AddField::Username => " Username ",
        AddField::Password => " Password ",
        AddField::Url => " URL ",
        AddField::Notes => " Notes ",
    }
}

/// A form field's text as the form shows it: the password as bullets, an
/// empty field as a blank.
pub fn field_display(field: AddField, value: &str) -> (t: String)
    ensures
        t@ == match field {
            AddField::Password => bullets(value@.len()),
            _ => if value@.len() == 0 {
                " "@
            } else {
                value@
            },
        },
{
    match field {
        AddField::Password => masked(value),
        _ => {
            if value.is_empty() {
                String::from_str(" ")
            } else {
                String::from_str(value)
            }
        },
    }
}

/// The question asked before moving an entry to Recently Deleted.
pub fn move_prompt(title: &str) -> (t: String)
    ensures
        t@ == "Move \""@ + title@ + "\" out of the active vault?"@,
{
    let mut t = message_with_text("Move \"", title);
    t.append("\" out of the active vault?");
    t
}

/// The question asked before permanently deleting an entry.
pub fn delete_forever_prompt(title: &str) -> (t: String)
    ensures
        t@ == "Permanently delete \""@ + title@ + "\"?"@,
{
    let mut t = message_with_text("Permanently delete \"", title);
    t.append("\"?");
    t
}

/// The question asked before emptying Recently Deleted.
pub fn empty_prompt(app: &App) -> (t: String)
    ensures
        t@ == "Permanently delete all "@ + decimal_text(deleted_rows(app@)) + " recoverable item(s)?"@,
{
    message_with_number("Permanently delete all ", app.deleted_count() as u64, " recoverable item(s)?")
}

/// The key hints in the footer.
pub open spec fn footer_keys_of(v: AppView) -> Seq<char> {
    match v.mode {
        Mode::Vault => if v.search_editing {
            "  Search typing   Enter Keep filter   Esc Clear   ↑↓ Select"@
        } else if v.search_query.len() != 0 {
            "  / Edit search   Esc Clear   a Add   e Edit   d Delete   ↑↓/jk Select"@
        } else {
            "  / Search   a Add   e Edit   d Delete   Tab Deleted   ↑↓/jk Select   l Lock   q Quit"@
        },
        Mode::RecentlyDeleted => "  r Restore   d Delete forever   x Empty all   Tab/Esc Active   ↑↓/jk Select"@,
        Mode::AddEntry | Mode::EditEntry => "  Tab Fields   Enter Next/Save   Ctrl+S Save   Esc Cancel"@,
        Mode::ConfirmDelete => if v.empty_confirmation {
            "  Enter/y Empty forever   Esc/n Cancel"@
        } else if v.permanent_delete_entry_id is Some {
            "  Enter/y Delete forever   Esc/n Cancel"@
        } else {
            "  Enter/y Confirm   Esc/n Cancel"@
        },
        Mode::Create | Mode::Confirm | Mode::Unlock => "  Enter Confirm   Esc Back/Quit"@,
    }
}

/// The key hints in the footer.
pub fn footer_keys(app: &App) -> (k: &'static str)
    ensures
        k@ == footer_keys_of(app@),
{
    match app.mode() {
        Mode::Vault => {
            if app.search_editing() {
                "  Search typing   Enter Keep filter   Esc Clear   ↑↓ Select"
            } else if !app.search_query().is_empty() {
                "  / Edit search   Esc Clear   a Add   e Edit   d Delete   ↑↓/jk Select"
            } else {
                "  / Search   a Add   e Edit   d Delete   Tab Deleted   ↑↓/jk Select   l Lock   q Quit"
            }
        },
        Mode::RecentlyDeleted => "  r Restore   d Delete forever   x Empty all   Tab/Esc Active   ↑↓/jk Select",
        Mode::AddEntry | Mode::EditEntry => "  Tab Fields   Enter Next/Save   Ctrl+S Save   Esc Cancel",
        Mode::ConfirmDelete => {
            if app.is_empty_recently_deleted_confirmation() {
                "  Enter/y Empty forever   Esc/n Cancel"
            } else if app.is_permanent_delete_confirmation() {
                "  Enter/y Delete forever   Esc/n Cancel"
            } else {
                "  Enter/y Confirm   Esc/n Cancel"
            }
        },
        Mode::Create | Mode::Confirm | Mode::Unlock => "  Enter Confirm   Esc Back/Quit",
    }
}

/// The status line as the footer shows it.
pub fn footer_status(app: &App) -> (t: String)
    ensures
        t@ == " "@ + app@.status + " "@,
{
    let mut t = message_with_text(" ", app.status());
    t.append(" ");
    t
}

/// Whether two application states differ at most in the passwords of the
/// unlocked vault's entries, each password keeping its length.
pub open spec fn views_alike(v: AppView, w: AppView) -> bool {
    &&& match (v.vault, w.vault) {
        (Some(a), Some(b)) => {
            &&& a.format_version == b.format_version
            &&& a.created_unix == b.created_unix
            &&& a.updated_unix == b.updated_unix
            &&& a.notes == b.notes
            &&& entries_alike(a.entries, b.entries)
        },
        (None, None) => true,
        _ => false,
    }
    &&& (AppView { vault: w.vault, ..v }) == w
}

/// Passwords stay off the vault screen: two states that differ only in the
/// passwords of the vault's entries, each keeping its length, show the same
/// vault screen. The list title, the rows, whether and why the list is
/// empty, the details of the selected entry (where the password is one
/// bullet per character), the vault information, the panels and the footer
/// are all the same.
pub proof fn lemma_vault_screen_hides_passwords(v: AppView, w: AppView, path: Seq<char>)
    requires
        views_alike(v, w),
    ensures
        vault_title_text(v) == vault_title_text(w),
        shown_rows(v) == shown_rows(w),
        active_rows(v) == active_rows(w),
        vault_rows_text(v) == vault_rows_text(w),
        selected_details(v) == selected_details(w),
        v.vault is Some ==> vault_info_text(v, path) == vault_info_text(w, path),
        panels_of(v) == panels_of(w),
        footer_keys_of(v) == footer_keys_of(w),
        v.status == w.status,
{
    if v.vault is Some {
        let a = v.vault.unwrap().entries;
        let b = w.vault.unwrap().entries;
        let q = v.search_query;
        lemma_alike_counts(a, b, q, false, a.len() as int);
        lemma_alike_counts(a, b, Seq::empty(), false, a.len() as int);
        lemma_alike_counts(a, b, Seq::empty(), true, a.len() as int);
        assert forall|i: int| 0 <= i < shown_rows(v) implies #[trigger] vault_rows_text(v)[i] == vault_rows_text(w)[i] by {
            lemma_alike_rows(a, b, q, false, i, 0);
            lemma_nth_listed(a, q, false, i, 0);
            let k = nth_listed(a, q, false, i);
            assert(shown_alike(a[k], b[k]));
        }
        assert(vault_rows_text(v) =~= vault_rows_text(w));
        lemma_alike_rows(a, b, q, false, v.selected as int, 0);
        lemma_nth_listed_range(a, q, false, v.selected as int, 0);
        if selected_row(v) != -1 {
            let k = selected_row(v);
            assert(shown_alike(a[k], b[k]));
            assert(details_text(a[k]) =~= details_text(b[k]));
        }
    }
}

/// Passwords stay off Recently Deleted: two states that differ only in the
/// passwords of the vault's entries, each keeping its length, show the same
/// title, rows and details of the selected deleted entry, with its deletion
/// time; the password is one bullet per character.
pub proof fn lemma_deleted_screen_hides_passwords(v: AppView, w: AppView)
    requires
        views_alike(v, w),
    ensures
        deleted_rows(v) == deleted_rows(w),
        deleted_rows_text(v) == deleted_rows_text(w),
        selected_deleted_details(v) == selected_deleted_details(w),
{
    if v.vault is Some {
        let a = v.vault.unwrap().entries;
        let b = w.vault.unwrap().entries;
        let q = Seq::<char>::empty();
        lemma_alike_counts(a, b, q, true, a.len() as int);
        assert forall|i: int| 0 <= i < deleted_rows(v) implies #[trigger] deleted_rows_text(v)[i] == deleted_rows_text(w)[i] by {
            lemma_alike_rows(a, b, q, true, i, 0);
            lemma_nth_listed(a, q, true, i, 0);
            let k = nth_listed(a, q, true, i);
            assert(shown_alike(a[k], b[k]));
        }
        assert(deleted_rows_text(v) =~= deleted_rows_text(w));
        lemma_alike_rows(a, b, q, true, v.deleted_selected as int, 0);
        lemma_nth_listed_range(a, q, true, v.deleted_selected as int, 0);
        if selected_deleted_row(v) != -1 {
            let k = selected_deleted_row(v);
            assert(shown_alike(a[k], b[k]));
            assert(details_text(a[k]) =~= details_text(b[k]));
        }
    }
}

} // verus!
