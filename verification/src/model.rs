//! The vault's data model: password entries, secure notes, and the
//! operations that add, edit, soft-delete, restore and purge entries.
use vstd::prelude::*;

use crate::app::{vault_data, VaultData};
use crate::text::{decimal_text, message_with_number, zeroize_string};

verus! {

/// Payload format version written by this version of BarePass.
pub const CURRENT_VAULT_FORMAT_VERSION: u32 = 2;

/// A stored login. `deleted_unix` is `Some(t)` while the entry sits in
/// Recently Deleted, where `t` is when it was moved there.
#[derive(Debug, PartialEq, Eq)]
pub struct PasswordEntry {
    pub id: u64,
    pub title: String,
    pub username: String,
    pub password: String,
    pub url: String,
    pub notes: String,
    pub deleted_unix: Option<u64>,
}

/// A free-form encrypted note.
#[derive(Debug, PartialEq, Eq)]
pub struct SecureNote {
    pub id: u64,
    pub title: String,
    pub body: String,
    pub deleted_unix: Option<u64>,
}

/// The decrypted vault payload.
#[derive(Debug, PartialEq, Eq)]
pub struct Vault {
    pub format_version: u32,
    pub created_unix: u64,
    pub updated_unix: u64,
    pub entries: Vec<PasswordEntry>,
    pub notes: Vec<SecureNote>,
}

/// A generic payload item, the unit of the current payload format.
#[derive(Debug, PartialEq, Eq)]
pub enum VaultItem {
    Password(PasswordEntry),
    SecureNote(SecureNote),
}

/// A borrowed payload item, as written when the vault is saved.
pub enum VaultItemRef<'a> {
    Password(&'a PasswordEntry),
    SecureNote(&'a SecureNote),
}

/// Whether an entry is active (not in Recently Deleted).
pub open spec fn is_active(e: PasswordEntry) -> bool {
    e.deleted_unix is None
}

/// The largest entry ID, or 0 for no entries.
pub open spec fn max_id(entries: Seq<PasswordEntry>) -> nat
    decreases entries.len(),
{
    if entries.len() == 0 {
        0
    } else {
        let rest = max_id(entries.drop_last());
        if entries.last().id > rest {
            entries.last().id as nat
        } else {
            rest
        }
    }
}

/// No two entries share an ID.
pub open spec fn ids_distinct(entries: Seq<PasswordEntry>) -> bool {
    forall|i: int, j: int|
        0 <= i < entries.len() && 0 <= j < entries.len() && i != j ==> #[trigger] entries[i].id
            != #[trigger] entries[j].id
}

/// Whether `e` has ID `id` and is deleted (`deleted`) or active (`!deleted`).
pub open spec fn entry_matches(e: PasswordEntry, id: u64, deleted: bool) -> bool {
    e.id == id && (e.deleted_unix is Some) == deleted
}

/// The first index at or after `start` whose entry matches, or -1.
pub open spec fn first_match_from(entries: Seq<PasswordEntry>, id: u64, deleted: bool, start: int) -> int
    decreases entries.len() - start,
{
    if start < 0 || start >= entries.len() {
        -1
    } else if entry_matches(entries[start], id, deleted) {
        start
    } else {
        first_match_from(entries, id, deleted, start + 1)
    }
}

/// The first index whose entry has ID `id` and the given deleted state, or -1.
pub open spec fn first_match(entries: Seq<PasswordEntry>, id: u64, deleted: bool) -> int {
    first_match_from(entries, id, deleted, 0)
}

/// Whether an entry is removed by a purge with the given cutoff: it must be
/// deleted, and (with a cutoff) deleted at or before the cutoff.
pub open spec fn purged_by(e: PasswordEntry, cutoff: Option<u64>) -> bool {
    match e.deleted_unix {
        None => false,
        Some(t) => match cutoff {
            None => true,
            Some(c) => t <= c,
        },
    }
}

/// The entries in `s[lo..hi]` that a purge keeps, in order.
pub open spec fn retained(s: Seq<PasswordEntry>, cutoff: Option<u64>, lo: int, hi: int) -> Seq<PasswordEntry>
    decreases hi - lo,
{
    if lo >= hi || lo < 0 {
        Seq::empty()
    } else if purged_by(s[lo], cutoff) {
        retained(s, cutoff, lo + 1, hi)
    } else {
        seq![s[lo]] + retained(s, cutoff, lo + 1, hi)
    }
}

/// The entries in `s[lo..hi]` that a purge removes, each with its index,
/// from the highest index down.
pub open spec fn removed_desc(s: Seq<PasswordEntry>, cutoff: Option<u64>, lo: int, hi: int) -> Seq<(usize, PasswordEntry)>
    decreases hi - lo,
{
    if lo >= hi || lo < 0 {
        Seq::empty()
    } else if purged_by(s[lo], cutoff) {
        removed_desc(s, cutoff, lo + 1, hi).push((lo as usize, s[lo]))
    } else {
        removed_desc(s, cutoff, lo + 1, hi)
    }
}

/// Puts removed entries back, the last pair (the lowest index) first, which is
/// how an unsaved purge is rolled back; a pair whose index lies past the end
/// is skipped.
pub open spec fn reinsert_removed(current: Seq<PasswordEntry>, removed: Seq<(usize, PasswordEntry)>) -> Seq<PasswordEntry>
    decreases removed.len(),
{
    if removed.len() == 0 {
        current
    } else {
        let (index, entry) = removed.last();
        let next = if index <= current.len() {
            current.insert(index as int, entry)
        } else {
            current
        };
        reinsert_removed(next, removed.drop_last())
    }
}

/// The password entries, then the notes, of a split list of payload items.
pub open spec fn split_items(items: Seq<VaultItem>) -> (Seq<PasswordEntry>, Seq<SecureNote>)
    decreases items.len(),
{
    if items.len() == 0 {
        (Seq::empty(), Seq::empty())
    } else {
        let (entries, notes) = split_items(items.drop_last());
        match items.last() {
            VaultItem::Password(e) => (entries.push(e), notes),
            VaultItem::SecureNote(n) => (entries, notes.push(n)),
        }
    }
}

/// The payload items of a vault: every password entry, then every note.
pub open spec fn items_of(entries: Seq<PasswordEntry>, notes: Seq<SecureNote>) -> Seq<VaultItem> {
    entries.map_values(|e: PasswordEntry| VaultItem::Password(e)) + notes.map_values(
        |n: SecureNote| VaultItem::SecureNote(n),
    )
}

/// The vault contents that reading a payload gives, or `None` when the
/// payload is refused. A version 1 payload gives its legacy entries and no
/// notes; a version 2 payload gives its items split into entries and notes;
/// either way the result is in the current format.
pub open spec fn payload_contents(
    format_version: u32,
    created_unix: u64,
    updated_unix: u64,
    legacy_entries: Option<Seq<PasswordEntry>>,
    items: Option<Seq<VaultItem>>,
) -> Option<VaultData> {
    if format_version == 1 {
        match items {
            Some(_) => None,
            None => Some(
                VaultData {
                    format_version: CURRENT_VAULT_FORMAT_VERSION,
                    created_unix,
                    updated_unix,
                    entries: match legacy_entries {
                        Some(l) => l,
                        None => Seq::empty(),
                    },
                    notes: Seq::empty(),
                },
            ),
        }
    } else if format_version == CURRENT_VAULT_FORMAT_VERSION {
        match legacy_entries {
            Some(_) => None,
            None => {
                let (entries, notes) = match items {
                    Some(i) => split_items(i),
                    None => (Seq::empty(), Seq::empty()),
                };
                Some(
                    VaultData {
                        format_version: CURRENT_VAULT_FORMAT_VERSION,
                        created_unix,
                        updated_unix,
                        entries,
                        notes,
                    },
                )
            },
        }
    } else {
        None
    }
}

/// The error text for a missing active entry.
pub open spec fn entry_not_found_text(id: u64) -> Seq<char> {
    "password entry #"@ + decimal_text(id as nat) + " was not found"@
}

/// The error text for a missing deleted entry.
pub open spec fn deleted_entry_not_found_text(id: u64) -> Seq<char> {
    "deleted password entry #"@ + decimal_text(id as nat) + " was not found"@
}


/// Every entry's ID is at most `max_id`.
pub proof fn lemma_max_id_bounds(entries: Seq<PasswordEntry>)
    ensures
        forall|i: int| 0 <= i < entries.len() ==> #[trigger] entries[i].id <= max_id(entries),
    decreases entries.len(),
{
    if entries.len() > 0 {
        lemma_max_id_bounds(entries.drop_last());
        assert forall|i: int| 0 <= i < entries.len() implies #[trigger] entries[i].id <= max_id(entries) by {
            if i < entries.len() - 1 {
                assert(entries[i] == entries.drop_last()[i]);
            }
        }
    }
}

/// IDs are unique and monotonic: the ID that adding an entry assigns is
/// larger than every ID already in the vault, so adding keeps IDs distinct.
pub proof fn lemma_new_id_is_fresh(entries: Seq<PasswordEntry>, added: PasswordEntry)
    requires
        ids_distinct(entries),
        added.id == max_id(entries) + 1,
    ensures
        forall|i: int| 0 <= i < entries.len() ==> #[trigger] entries[i].id < added.id,
        ids_distinct(entries.push(added)),
{
    lemma_max_id_bounds(entries);
    let s = entries.push(added);
    assert forall|i: int, j: int| 0 <= i < s.len() && 0 <= j < s.len() && i != j implies #[trigger] s[i].id
        != #[trigger] s[j].id by {
        if i < entries.len() && j < entries.len() {
            assert(s[i] == entries[i] && s[j] == entries[j]);
        } else if i < entries.len() {
            assert(s[i] == entries[i]);
        } else {
            assert(s[j] == entries[j]);
        }
    }
}

/// With distinct IDs, the only entry with a given ID is the first match.
pub proof fn lemma_first_match_unique(entries: Seq<PasswordEntry>, id: u64, deleted: bool, k: int, start: int)
    requires
        ids_distinct(entries),
        0 <= start <= k < entries.len(),
        entry_matches(entries[k], id, deleted),
    ensures
        first_match_from(entries, id, deleted, start) == k,
    decreases k - start,
{
    if start < k {
        assert(entries[start].id != entries[k].id);
        lemma_first_match_unique(entries, id, deleted, k, start + 1);
    }
}

/// Moving an entry to Recently Deleted and then restoring it gives back the
/// entry list exactly (the entry keeps its data and position), when IDs are
/// distinct.
pub proof fn lemma_delete_then_restore(entries: Seq<PasswordEntry>, id: u64, t: u64)
    requires
        ids_distinct(entries),
        first_match(entries, id, false) != -1,
    ensures
        ({
            let k = first_match(entries, id, false);
            let deleted = entries.update(k, (PasswordEntry { deleted_unix: Some(t), ..entries[k] }));
            &&& first_match(deleted, id, true) == k
            &&& deleted.update(k, (PasswordEntry { deleted_unix: None, ..deleted[k] })) == entries
        }),
{
    let k = first_match(entries, id, false);
    lemma_first_match_in_range(entries, id, false, 0);
    let deleted = entries.update(k, (PasswordEntry { deleted_unix: Some(t), ..entries[k] }));
    assert(ids_distinct(deleted)) by {
        assert forall|i: int, j: int| 0 <= i < deleted.len() && 0 <= j < deleted.len() && i != j implies #[trigger] deleted[i].id
            != #[trigger] deleted[j].id by {
            assert(deleted[i].id == entries[i].id && deleted[j].id == entries[j].id);
        }
    }
    lemma_first_match_unique(deleted, id, true, k, 0);
    assert(deleted.update(k, (PasswordEntry { deleted_unix: None, ..deleted[k] })) =~= entries);
}

/// A found match is in range and matches.
pub proof fn lemma_first_match_in_range(entries: Seq<PasswordEntry>, id: u64, deleted: bool, start: int)
    requires
        0 <= start,
    ensures
        first_match_from(entries, id, deleted, start) == -1 || (start <= first_match_from(entries, id, deleted, start)
            < entries.len() && entry_matches(entries[first_match_from(entries, id, deleted, start)], id, deleted)),
    decreases entries.len() - start,
{
    if start < entries.len() && !entry_matches(entries[start], id, deleted) {
        lemma_first_match_in_range(entries, id, deleted, start + 1);
    }
}

/// An entry that matches makes the search succeed, at or before it.
pub proof fn lemma_first_match_found(entries: Seq<PasswordEntry>, id: u64, deleted: bool, m: int, start: int)
    requires
        0 <= start <= m < entries.len(),
        entry_matches(entries[m], id, deleted),
    ensures
        first_match_from(entries, id, deleted, start) != -1,
    decreases m - start,
{
    if start < m && !entry_matches(entries[start], id, deleted) {
        lemma_first_match_found(entries, id, deleted, m, start + 1);
    }
}

/// Rolling back a purge: putting the removed entries back at their former
/// indices, lowest index first, restores the entry list exactly.
pub proof fn lemma_reinsert_restores(s: Seq<PasswordEntry>, cutoff: Option<u64>)
    requires
        s.len() <= usize::MAX,
    ensures
        reinsert_removed(retained(s, cutoff, 0, s.len() as int), removed_desc(s, cutoff, 0, s.len() as int)) == s,
{
    lemma_reinsert_from(s, cutoff, 0);
    assert(s.subrange(0, 0) + retained(s, cutoff, 0, s.len() as int) =~= retained(s, cutoff, 0, s.len() as int));
    assert(s.subrange(0, s.len() as int) =~= s);
}

proof fn lemma_reinsert_from(s: Seq<PasswordEntry>, cutoff: Option<u64>, lo: int)
    requires
        0 <= lo <= s.len() <= usize::MAX,
    ensures
        reinsert_removed(s.subrange(0, lo) + retained(s, cutoff, lo, s.len() as int), removed_desc(s, cutoff, lo, s.len() as int))
            == s.subrange(0, s.len() as int),
    decreases s.len() - lo,
{
    let n = s.len() as int;
    if lo < n {
        lemma_reinsert_from(s, cutoff, lo + 1);
        let rest = retained(s, cutoff, lo + 1, n);
        let cur = s.subrange(0, lo) + retained(s, cutoff, lo, n);
        if purged_by(s[lo], cutoff) {
            let r = removed_desc(s, cutoff, lo + 1, n);
            let full = r.push((lo as usize, s[lo]));
            assert(full.last() == (lo as usize, s[lo]));
            assert(full.drop_last() =~= r);
            assert(cur.insert(lo, s[lo]) =~= s.subrange(0, lo + 1) + rest);
        } else {
            assert(cur =~= s.subrange(0, lo + 1) + rest);
        }
    } else {
        assert(s.subrange(0, lo) + retained(s, cutoff, lo, n) =~= s.subrange(0, n));
    }
}

/// Splitting the payload items written for a vault gives back exactly its
/// entries and notes, so saving and reopening preserves both lists.
pub proof fn lemma_split_items_of(entries: Seq<PasswordEntry>, notes: Seq<SecureNote>)
    ensures
        split_items(items_of(entries, notes)) == (entries, notes),
    decreases notes.len(),
{
    if notes.len() == 0 {
        lemma_split_entry_items(entries);
        assert(items_of(entries, notes) =~= entries.map_values(|e: PasswordEntry| VaultItem::Password(e)));
    } else {
        lemma_split_items_of(entries, notes.drop_last());
        assert(items_of(entries, notes).drop_last() =~= items_of(entries, notes.drop_last()));
        assert(notes.drop_last().push(notes.last()) =~= notes);
    }
}

/// Payload round trip: a vault in the current format, written out as its
/// payload (its format version and timestamps, no legacy entries, and its
/// entries followed by its notes as items) and read back, is the same vault,
/// with every entry and note in its place.
pub proof fn lemma_payload_round_trip(d: VaultData)
    requires
        d.format_version == CURRENT_VAULT_FORMAT_VERSION,
    ensures
        payload_contents(d.format_version, d.created_unix, d.updated_unix, None, Some(items_of(d.entries, d.notes)))
            == Some(d),
{
    lemma_split_items_of(d.entries, d.notes);
}

proof fn lemma_split_entry_items(entries: Seq<PasswordEntry>)
    ensures
        split_items(entries.map_values(|e: PasswordEntry| VaultItem::Password(e))) == (entries, Seq::<SecureNote>::empty()),
    decreases entries.len(),
{
    if entries.len() > 0 {
        lemma_split_entry_items(entries.drop_last());
        assert(entries.map_values(|e: PasswordEntry| VaultItem::Password(e)).drop_last()
            =~= entries.drop_last().map_values(|e: PasswordEntry| VaultItem::Password(e)));
        assert(entries.drop_last().push(entries.last()) =~= entries);
    }
}

/// Seconds since the Unix epoch on the system clock
/// (`SystemTime::now().duration_since(UNIX_EPOCH)`), or 0 when the clock
/// reads before the epoch. Nothing is promised of the value: it is the time.
#[verifier::external_body]
pub fn now_unix() -> u64 {
    std::time::SystemTime::now().duration_since(std::time::UNIX_EPOCH).unwrap_or_default().as_secs()
}

/// Finds the first entry with `id` in the given deleted state.
pub fn find_entry(entries: &Vec<PasswordEntry>, id: u64, deleted: bool) -> (found: Option<usize>)
    ensures
        match found {
            Some(k) => k as int == first_match(entries@, id, deleted),
            None => first_match(entries@, id, deleted) == -1,
        },
        found matches Some(k) ==> k < entries@.len() && entry_matches(entries@[k as int], id, deleted),
{
    let mut i: usize = 0;
    while i < entries.len()
        invariant
            i <= entries@.len(),
            first_match(entries@, id, deleted) == first_match_from(entries@, id, deleted, i as int),
        decreases entries@.len() - i,
    {
        let is_deleted = entries[i].deleted_unix.is_some();
        if entries[i].id == id && is_deleted == deleted {
            return Some(i);
        }
        i = i + 1;
    }
    None
}

/// Removes the entries a purge with `cutoff` selects, scanning from the last
/// index down, and returns them with their former indices.
fn remove_purged(entries: &mut Vec<PasswordEntry>, cutoff: Option<u64>) -> (removed: Vec<(usize, PasswordEntry)>)
    ensures
        final(entries)@ == retained(old(entries)@, cutoff, 0, old(entries)@.len() as int),
        removed@ == removed_desc(old(entries)@, cutoff, 0, old(entries)@.len() as int),
{
    let ghost s = entries@;
    let mut removed: Vec<(usize, PasswordEntry)> = Vec::new();
    let mut index: usize = entries.len();
    while index > 0
        invariant
            index <= s.len(),
            entries@ == s.subrange(0, index as int) + retained(s, cutoff, index as int, s.len() as int),
            removed@ == removed_desc(s, cutoff, index as int, s.len() as int),
        decreases index,
    {
        let i = index - 1;
        assert(entries@[i as int] == s[i as int]);
        let purge = match entries[i].deleted_unix {
            None => false,
            Some(t) => match cutoff {
                None => true,
                Some(c) => t <= c,
            },
        };
        let ghost rest = retained(s, cutoff, index as int, s.len() as int);
        if purge {
            let e = entries.remove(i);
            assert(entries@ =~= s.subrange(0, i as int) + rest);
            removed.push((i, e));
        } else {
            assert(entries@ =~= s.subrange(0, i as int) + (seq![s[i as int]] + rest));
        }
        index = i;
    }
    assert(s.subrange(0, 0) + retained(s, cutoff, 0, s.len() as int) =~= retained(s, cutoff, 0, s.len() as int));
    removed
}

impl PasswordEntry {
    /// Wipes the text fields of an entry that is being dropped.
    pub fn wipe(self) {
        let mut entry = self;
        zeroize_string(&mut entry.title);
        zeroize_string(&mut entry.username);
        zeroize_string(&mut entry.password);
        zeroize_string(&mut entry.url);
        zeroize_string(&mut entry.notes);
    }
}

impl SecureNote {
    /// Wipes the text fields of a note that is being dropped.
    pub fn wipe(self) {
        let mut note = self;
        zeroize_string(&mut note.title);
        zeroize_string(&mut note.body);
    }
}

impl Vault {
    /// Wipes every entry and note of a vault that is being dropped.
    pub fn wipe(self) {
        let mut vault = self;
        while vault.entries.len() > 0
            decreases vault.entries@.len(),
        {
            match vault.entries.pop() {
                Some(e) => e.wipe(),
                None => {},
            }
        }
        while vault.notes.len() > 0
            decreases vault.notes@.len(),
        {
            match vault.notes.pop() {
                Some(n) => n.wipe(),
                None => {},
            }
        }
    }

    /// The payload items written when the vault is saved: every password
    /// entry in order, then every note in order.
    pub fn payload_items(&self) -> (items: Vec<VaultItemRef<'_>>)
        ensures
            items@.len() == self.entries@.len() + self.notes@.len(),
            forall|i: int| 0 <= i < self.entries@.len() ==> #[trigger] items@[i] == VaultItemRef::Password(&self.entries@[i]),
            forall|j: int| 0 <= j < self.notes@.len() ==> #[trigger] items@[self.entries@.len() + j] == VaultItemRef::SecureNote(&self.notes@[j]),
    {
        let mut items: Vec<VaultItemRef<'_>> = Vec::new();
        let mut i: usize = 0;
        while i < self.entries.len()
            invariant
                i <= self.entries@.len(),
                items@.len() == i,
                forall|k: int| 0 <= k < i ==> #[trigger] items@[k] == VaultItemRef::Password(&self.entries@[k]),
            decreases self.entries@.len() - i,
        {
            items.push(VaultItemRef::Password(&self.entries[i]));
            i = i + 1;
        }
        let mut j: usize = 0;
        while j < self.notes.len()
            invariant
                j <= self.notes@.len(),
                items@.len() == self.entries@.len() + j,
                forall|k: int| 0 <= k < self.entries@.len() ==> #[trigger] items@[k] == VaultItemRef::Password(&self.entries@[k]),
                forall|k: int| 0 <= k < j ==> #[trigger] items@[self.entries@.len() + k] == VaultItemRef::SecureNote(&self.notes@[k]),
            decreases self.notes@.len() - j,
        {
            items.push(VaultItemRef::SecureNote(&self.notes[j]));
            j = j + 1;
        }
        items
    }

    /// Builds a vault from the fields of a decoded payload. Version 1 payloads
    /// hold a plain `entries` list and no items; version 2 payloads hold
    /// generic items and no legacy entries; any other version is refused. The
    /// result is always in the current format.
    pub fn from_payload_fields(
        format_version: u32,
        created_unix: u64,
        updated_unix: u64,
        legacy_entries: Option<Vec<PasswordEntry>>,
        items: Option<Vec<VaultItem>>,
    ) -> (res: Result<Vault, String>)
        ensures
            format_version == 1 ==> match res {
                Ok(v) => {
                    &&& items is None
                    &&& v.format_version == CURRENT_VAULT_FORMAT_VERSION
                    &&& v.created_unix == created_unix
                    &&& v.updated_unix == updated_unix
                    &&& v.entries@ == match legacy_entries {
                        Some(l) => l@,
                        None => Seq::<PasswordEntry>::empty(),
                    }
                    &&& v.notes@.len() == 0
                },
                Err(e) => items is Some && e@ == "vault format 1 cannot contain generic items"@,
            },
            format_version == CURRENT_VAULT_FORMAT_VERSION ==> match res {
                Ok(v) => {
                    &&& legacy_entries is None
                    &&& v.format_version == CURRENT_VAULT_FORMAT_VERSION
                    &&& v.created_unix == created_unix
                    &&& v.updated_unix == updated_unix
                    &&& (v.entries@, v.notes@) == match items {
                        Some(i) => split_items(i@),
                        None => (Seq::<PasswordEntry>::empty(), Seq::<SecureNote>::empty()),
                    }
                },
                Err(e) => legacy_entries is Some && e@ == "vault format 2 cannot contain legacy entries"@,
            },
            format_version != 1 && format_version != CURRENT_VAULT_FORMAT_VERSION ==> (res matches Err(e)
                && e@ == "unsupported vault payload format version "@ + decimal_text(format_version as nat)),
            match res {
                Ok(v) => payload_contents(
                    format_version,
                    created_unix,
                    updated_unix,
                    match legacy_entries {
                        Some(l) => Some(l@),
                        None => None,
                    },
                    match items {
                        Some(i) => Some(i@),
                        None => None,
                    },
                ) == Some(vault_data(v)),
                Err(_) => payload_contents(
                    format_version,
                    created_unix,
                    updated_unix,
                    match legacy_entries {
                        Some(l) => Some(l@),
                        None => None,
                    },
                    match items {
                        Some(i) => Some(i@),
                        None => None,
                    },
                ) is None,
            },
    {
        if format_version == 1 {
            if items.is_some() {
                return Err(String::from_str("vault format 1 cannot contain generic items"));
            }
            let entries = match legacy_entries {
                Some(l) => l,
                None => Vec::new(),
            };
            Ok(Vault {
                format_version: CURRENT_VAULT_FORMAT_VERSION,
                created_unix,
                updated_unix,
                entries,
                notes: Vec::new(),
            })
        } else if format_version == CURRENT_VAULT_FORMAT_VERSION {
            if legacy_entries.is_some() {
                return Err(String::from_str("vault format 2 cannot contain legacy entries"));
            }
            let mut entries: Vec<PasswordEntry> = Vec::new();
            let mut notes: Vec<SecureNote> = Vec::new();
            let all: Vec<VaultItem> = match items {
                Some(i) => i,
                None => Vec::new(),
            };
            let ghost all_items = all@;
            for item in it: all
                invariant
                    it.seq() == all_items,
                    (entries@, notes@) == split_items(all_items.take(it.index() as int)),
            {
                proof {
                    assert(all_items.take(it.index() + 1).drop_last() =~= all_items.take(it.index() as int));
                }
                match item {
                    VaultItem::Password(e) => entries.push(e),
                    VaultItem::SecureNote(n) => notes.push(n),
                }
            }
            proof {
                assert(all_items.take(all_items.len() as int) =~= all_items);
            }
            Ok(Vault { format_version: CURRENT_VAULT_FORMAT_VERSION, created_unix, updated_unix, entries, notes })
        } else {
            let m = message_with_number("unsupported vault payload format version ", format_version as u64, "");
            proof {
                reveal_strlit("");
                assert(m@ =~= "unsupported vault payload format version "@ + decimal_text(format_version as nat));
            }
            Err(m)
        }
    }
    /// An empty vault in the current format, created and updated at `now`.
    pub fn new_at(now: u64) -> (v: Vault)
        ensures
            v.format_version == CURRENT_VAULT_FORMAT_VERSION,
            v.created_unix == now,
            v.updated_unix == now,
            v.entries@.len() == 0,
            v.notes@.len() == 0,
    {
        Vault {
            format_version: CURRENT_VAULT_FORMAT_VERSION,
            created_unix: now,
            updated_unix: now,
            entries: Vec::new(),
            notes: Vec::new(),
        }
    }

    /// An empty vault in the current format, stamped with the current time.
    pub fn new() -> (v: Vault)
        ensures
            v.format_version == CURRENT_VAULT_FORMAT_VERSION,
            v.created_unix == v.updated_unix,
            v.entries@.len() == 0,
            v.notes@.len() == 0,
    {
        Vault::new_at(now_unix())
    }

    /// Adds an active password entry with the next ID (one more than the
    /// largest ID in use) and stamps the vault as updated at `now`.
    pub fn add_password_entry_at(
        &mut self,
        title: String,
        username: String,
        password: String,
        url: String,
        notes: String,
        now: u64,
    ) -> (res: Result<u64, String>)
        ensures
            final(self).format_version == old(self).format_version,
            final(self).created_unix == old(self).created_unix,
            final(self).notes == old(self).notes,
            match res {
                Ok(id) => {
                    &&& id == max_id(old(self).entries@) + 1
                    &&& final(self).entries@ == old(self).entries@.push(
                        (PasswordEntry { id, title, username, password, url, notes, deleted_unix: None }),
                    )
                    &&& final(self).updated_unix == now
                },
                Err(e) => {
                    &&& max_id(old(self).entries@) == u64::MAX
                    &&& e@ == "vault entry ID space exhausted"@
                    &&& final(self).entries@ == old(self).entries@
                    &&& final(self).updated_unix == old(self).updated_unix
                },
            },
    {
        let mut largest: u64 = 0;
        let mut i: usize = 0;
        while i < self.entries.len()
            invariant
                i <= self.entries@.len(),
                largest == max_id(self.entries@.subrange(0, i as int)),
            decreases self.entries@.len() - i,
        {
            assert(self.entries@.subrange(0, i + 1).drop_last() =~= self.entries@.subrange(0, i as int));
            if self.entries[i].id > largest {
                largest = self.entries[i].id;
            }
            i = i + 1;
        }
        assert(self.entries@.subrange(0, i as int) =~= self.entries@);
        if largest == u64::MAX {
            return Err(String::from_str("vault entry ID space exhausted"));
        }
        let id = largest + 1;
        self.entries.push(PasswordEntry { id, title, username, password, url, notes, deleted_unix: None });
        self.updated_unix = now;
        Ok(id)
    }

    /// Adds an active password entry with the next ID, stamped with the
    /// current time.
    pub fn add_password_entry(
        &mut self,
        title: String,
        username: String,
        password: String,
        url: String,
        notes: String,
    ) -> (res: Result<u64, String>)
        ensures
            final(self).format_version == old(self).format_version,
            final(self).created_unix == old(self).created_unix,
            final(self).notes == old(self).notes,
            match res {
                Ok(id) => {
                    &&& id == max_id(old(self).entries@) + 1
                    &&& final(self).entries@ == old(self).entries@.push(
                        (PasswordEntry { id, title, username, password, url, notes, deleted_unix: None }),
                    )
                },
                Err(e) => {
                    &&& max_id(old(self).entries@) == u64::MAX
                    &&& e@ == "vault entry ID space exhausted"@
                    &&& final(self).entries@ == old(self).entries@
                    &&& final(self).updated_unix == old(self).updated_unix
                },
            },
    {
        let now = now_unix();
        self.add_password_entry_at(title, username, password, url, notes, now)
    }

    /// Replaces the fields of the first active entry with `id`, wiping the old
    /// field contents, and stamps the vault as updated at `now`.
    pub fn update_password_entry_at(
        &mut self,
        id: u64,
        title: String,
        username: String,
        password: String,
        url: String,
        notes: String,
        now: u64,
    ) -> (res: Result<(), String>)
        ensures
            final(self).format_version == old(self).format_version,
            final(self).created_unix == old(self).created_unix,
            final(self).notes == old(self).notes,
            ({
                let k = first_match(old(self).entries@, id, false);
                if k == -1 {
                    &&& res matches Err(e) && e@ == entry_not_found_text(id)
                    &&& final(self).entries@ == old(self).entries@
                    &&& final(self).updated_unix == old(self).updated_unix
                } else {
                    &&& res is Ok
                    &&& final(self).entries@ == old(self).entries@.update(
                        k,
                        (PasswordEntry { id, title, username, password, url, notes, deleted_unix: None }),
                    )
                    &&& final(self).updated_unix == now
                }
            }),
    {
        match find_entry(&self.entries, id, false) {
            None => Err(message_with_number("password entry #", id, " was not found")),
            Some(k) => {
                zeroize_string(&mut self.entries[k].title);
                zeroize_string(&mut self.entries[k].username);
                zeroize_string(&mut self.entries[k].password);
                zeroize_string(&mut self.entries[k].url);
                zeroize_string(&mut self.entries[k].notes);
                self.entries[k].title = title;
                self.entries[k].username = username;
                self.entries[k].password = password;
                self.entries[k].url = url;
                self.entries[k].notes = notes;
                self.updated_unix = now;
                Ok(())
            },
        }
    }

    /// Replaces the fields of the first active entry with `id`, wiping the old
    /// field contents, and stamps the vault with the current time.
    pub fn update_password_entry(
        &mut self,
        id: u64,
        title: String,
        username: String,
        password: String,
        url: String,
        notes: String,
    ) -> (res: Result<(), String>)
        ensures
            final(self).format_version == old(self).format_version,
            final(self).created_unix == old(self).created_unix,
            final(self).notes == old(self).notes,
            ({
                let k = first_match(old(self).entries@, id, false);
                if k == -1 {
                    &&& res matches Err(e) && e@ == entry_not_found_text(id)
                    &&& final(self).entries@ == old(self).entries@
                    &&& final(self).updated_unix == old(self).updated_unix
                } else {
                    &&& res is Ok
                    &&& final(self).entries@ == old(self).entries@.update(
                        k,
                        (PasswordEntry { id, title, username, password, url, notes, deleted_unix: None }),
                    )
                }
            }),
    {
        let now = now_unix();
        self.update_password_entry_at(id, title, username, password, url, notes, now)
    }

    /// Moves the first active entry with `id` to Recently Deleted at `now`,
    /// keeping all of its data, and returns the deletion time.
    pub fn move_password_entry_to_deleted_at(&mut self, id: u64, now: u64) -> (res: Result<u64, String>)
        ensures
            final(self).format_version == old(self).format_version,
            final(self).created_unix == old(self).created_unix,
            final(self).notes == old(self).notes,
            ({
                let k = first_match(old(self).entries@, id, false);
                if k == -1 {
                    &&& res matches Err(e) && e@ == entry_not_found_text(id)
                    &&& final(self).entries@ == old(self).entries@
                    &&& final(self).updated_unix == old(self).updated_unix
                } else {
                    &&& res == Ok::<u64, String>(now)
                    &&& final(self).entries@ == old(self).entries@.update(
                        k,
                        (PasswordEntry { deleted_unix: Some(now), ..old(self).entries@[k] }),
                    )
                    &&& final(self).updated_unix == now
                }
            }),
    {
        match find_entry(&self.entries, id, false) {
            None => Err(message_with_number("password entry #", id, " was not found")),
            Some(k) => {
                self.entries[k].deleted_unix = Some(now);
                self.updated_unix = now;
                Ok(now)
            },
        }
    }

    /// Moves the first active entry with `id` to Recently Deleted, stamped
    /// with the current time, and returns the deletion time.
    pub fn move_password_entry_to_deleted(&mut self, id: u64) -> (res: Result<u64, String>)
        ensures
            final(self).format_version == old(self).format_version,
            final(self).created_unix == old(self).created_unix,
            final(self).notes == old(self).notes,
            ({
                let k = first_match(old(self).entries@, id, false);
                if k == -1 {
                    &&& res matches Err(e) && e@ == entry_not_found_text(id)
                    &&& final(self).entries@ == old(self).entries@
                    &&& final(self).updated_unix == old(self).updated_unix
                } else {
                    &&& res matches Ok(t) && final(self).entries@ == old(self).entries@.update(
                        k,
                        (PasswordEntry { deleted_unix: Some(t), ..old(self).entries@[k] }),
                    ) && final(self).updated_unix == t
                }
            }),
    {
        let now = now_unix();
        self.move_password_entry_to_deleted_at(id, now)
    }

    /// Restores the first deleted entry with `id` to the active vault and
    /// stamps the vault as updated at `now`.
    pub fn restore_password_entry_at(&mut self, id: u64, now: u64) -> (res: Result<(), String>)
        ensures
            final(self).format_version == old(self).format_version,
            final(self).created_unix == old(self).created_unix,
            final(self).notes == old(self).notes,
            ({
                let k = first_match(old(self).entries@, id, true);
                if k == -1 {
                    &&& res matches Err(e) && e@ == deleted_entry_not_found_text(id)
                    &&& final(self).entries@ == old(self).entries@
                    &&& final(self).updated_unix == old(self).updated_unix
                } else {
                    &&& res is Ok
                    &&& final(self).entries@ == old(self).entries@.update(
                        k,
                        (PasswordEntry { deleted_unix: None, ..old(self).entries@[k] }),
                    )
                    &&& final(self).updated_unix == now
                }
            }),
    {
        match find_entry(&self.entries, id, true) {
            None => Err(message_with_number("deleted password entry #", id, " was not found")),
            Some(k) => {
                self.entries[k].deleted_unix = None;
                self.updated_unix = now;
                Ok(())
            },
        }
    }

    /// Restores the first deleted entry with `id`, stamped with the current
    /// time.
    pub fn restore_password_entry(&mut self, id: u64) -> (res: Result<(), String>)
        ensures
            final(self).format_version == old(self).format_version,
            final(self).created_unix == old(self).created_unix,
            final(self).notes == old(self).notes,
            ({
                let k = first_match(old(self).entries@, id, true);
                if k == -1 {
                    &&& res matches Err(e) && e@ == deleted_entry_not_found_text(id)
                    &&& final(self).entries@ == old(self).entries@
                    &&& final(self).updated_unix == old(self).updated_unix
                } else {
                    &&& res is Ok
                    &&& final(self).entries@ == old(self).entries@.update(
                        k,
                        (PasswordEntry { deleted_unix: None, ..old(self).entries@[k] }),
                    )
                }
            }),
    {
        let now = now_unix();
        self.restore_password_entry_at(id, now)
    }

    /// Permanently removes the first deleted entry with `id`; active entries
    /// are never removed. Returns the entry and the index it had.
    pub fn permanently_delete_password_entry_at(&mut self, id: u64, now: u64) -> (res: Result<(usize, PasswordEntry), String>)
        ensures
            final(self).format_version == old(self).format_version,
            final(self).created_unix == old(self).created_unix,
            final(self).notes == old(self).notes,
            ({
                let k = first_match(old(self).entries@, id, true);
                if k == -1 {
                    &&& res matches Err(e) && e@ == deleted_entry_not_found_text(id)
                    &&& final(self).entries@ == old(self).entries@
                    &&& final(self).updated_unix == old(self).updated_unix
                } else {
                    &&& res matches Ok(p) && p.0 as int == k && p.1 == old(self).entries@[k]
                    &&& final(self).entries@ == old(self).entries@.remove(k)
                    &&& final(self).updated_unix == now
                }
            }),
    {
        match find_entry(&self.entries, id, true) {
            None => Err(message_with_number("deleted password entry #", id, " was not found")),
            Some(k) => {
                let entry = self.entries.remove(k);
                self.updated_unix = now;
                Ok((k, entry))
            },
        }
    }

    /// Permanently removes the first deleted entry with `id`, stamped with the
    /// current time.
    pub fn permanently_delete_password_entry(&mut self, id: u64) -> (res: Result<(usize, PasswordEntry), String>)
        ensures
            final(self).format_version == old(self).format_version,
            final(self).created_unix == old(self).created_unix,
            final(self).notes == old(self).notes,
            ({
                let k = first_match(old(self).entries@, id, true);
                if k == -1 {
                    &&& res matches Err(e) && e@ == deleted_entry_not_found_text(id)
                    &&& final(self).entries@ == old(self).entries@
                    &&& final(self).updated_unix == old(self).updated_unix
                } else {
                    &&& res matches Ok(p) && p.0 as int == k && p.1 == old(self).entries@[k]
                    &&& final(self).entries@ == old(self).entries@.remove(k)
                }
            }),
    {
        let now = now_unix();
        self.permanently_delete_password_entry_at(id, now)
    }

    /// Permanently removes every deleted entry, returning the removed entries
    /// with their former indices from the highest index down. The vault is
    /// stamped at `now` only when something was removed.
    pub fn permanently_delete_all_deleted_entries_at(&mut self, now: u64) -> (removed: Vec<(usize, PasswordEntry)>)
        ensures
            final(self).format_version == old(self).format_version,
            final(self).created_unix == old(self).created_unix,
            final(self).notes == old(self).notes,
            final(self).entries@ == retained(old(self).entries@, None, 0, old(self).entries@.len() as int),
            removed@ == removed_desc(old(self).entries@, None, 0, old(self).entries@.len() as int),
            final(self).updated_unix == if removed@.len() == 0 { old(self).updated_unix } else { now },
    {
        let removed = remove_purged(&mut self.entries, None);
        if removed.len() > 0 {
            self.updated_unix = now;
        }
        removed
    }

    /// Permanently removes every deleted entry, stamped with the current time
    /// when something was removed.
    pub fn permanently_delete_all_deleted_entries(&mut self) -> (removed: Vec<(usize, PasswordEntry)>)
        ensures
            final(self).format_version == old(self).format_version,
            final(self).created_unix == old(self).created_unix,
            final(self).notes == old(self).notes,
            final(self).entries@ == retained(old(self).entries@, None, 0, old(self).entries@.len() as int),
            removed@ == removed_desc(old(self).entries@, None, 0, old(self).entries@.len() as int),
            removed@.len() == 0 ==> final(self).updated_unix == old(self).updated_unix,
    {
        let now = now_unix();
        self.permanently_delete_all_deleted_entries_at(now)
    }

    /// Permanently removes every entry deleted at or before `cutoff_unix`,
    /// returning them with their former indices from the highest index down.
    /// The vault is stamped at `now` only when something was removed.
    pub fn purge_deleted_before_at(&mut self, cutoff_unix: u64, now: u64) -> (removed: Vec<(usize, PasswordEntry)>)
        ensures
            final(self).format_version == old(self).format_version,
            final(self).created_unix == old(self).created_unix,
            final(self).notes == old(self).notes,
            final(self).entries@ == retained(old(self).entries@, Some(cutoff_unix), 0, old(self).entries@.len() as int),
            removed@ == removed_desc(old(self).entries@, Some(cutoff_unix), 0, old(self).entries@.len() as int),
            final(self).updated_unix == if removed@.len() == 0 { old(self).updated_unix } else { now },
    {
        let removed = remove_purged(&mut self.entries, Some(cutoff_unix));
        if removed.len() > 0 {
            self.updated_unix = now;
        }
        removed
    }

    /// Permanently removes every entry deleted at or before `cutoff_unix`,
    /// stamped with the current time when something was removed.
    pub fn purge_deleted_before(&mut self, cutoff_unix: u64) -> (removed: Vec<(usize, PasswordEntry)>)
        ensures
            final(self).format_version == old(self).format_version,
            final(self).created_unix == old(self).created_unix,
            final(self).notes == old(self).notes,
            final(self).entries@ == retained(old(self).entries@, Some(cutoff_unix), 0, old(self).entries@.len() as int),
            removed@ == removed_desc(old(self).entries@, Some(cutoff_unix), 0, old(self).entries@.len() as int),
            removed@.len() == 0 ==> final(self).updated_unix == old(self).updated_unix,
    {
        let now = now_unix();
        self.purge_deleted_before_at(cutoff_unix, now)
    }
}

/// Every entry a purge keeps comes from the range it looked at, in order.
proof fn lemma_retained_from(s: Seq<PasswordEntry>, cutoff: Option<u64>, lo: int, hi: int)
    requires
        0 <= lo,
        hi <= s.len(),
    ensures
        forall|i: int|
            0 <= i < retained(s, cutoff, lo, hi).len() ==> exists|j: int|
                lo <= j < hi && #[trigger] retained(s, cutoff, lo, hi)[i] == s[j] && (forall|i2: int|
                    0 <= i2 < i ==> exists|j2: int|
                        lo <= j2 < j && #[trigger] retained(s, cutoff, lo, hi)[i2] == s[j2]),
    decreases hi - lo,
{
    if lo < hi {
        lemma_retained_from(s, cutoff, lo + 1, hi);
        let rest = retained(s, cutoff, lo + 1, hi);
        if !purged_by(s[lo], cutoff) {
            let r = retained(s, cutoff, lo, hi);
            assert(r == seq![s[lo]] + rest);
            assert forall|i: int| 0 <= i < r.len() implies exists|j: int|
                lo <= j < hi && #[trigger] r[i] == s[j] && (forall|i2: int|
                    0 <= i2 < i ==> exists|j2: int| lo <= j2 < j && #[trigger] r[i2] == s[j2]) by {
                if i == 0 {
                    assert(r[0] == s[lo]);
                } else {
                    assert(r[i] == rest[i - 1]);
                    let j = choose|j: int|
                        lo + 1 <= j < hi && #[trigger] rest[i - 1] == s[j] && (forall|i2: int|
                            0 <= i2 < i - 1 ==> exists|j2: int| lo + 1 <= j2 < j && #[trigger] rest[i2] == s[j2]);
                    assert forall|i2: int| 0 <= i2 < i implies exists|j2: int| lo <= j2 < j && #[trigger] r[i2]
                        == s[j2] by {
                        if i2 == 0 {
                            assert(r[0] == s[lo]);
                        } else {
                            assert(r[i2] == rest[i2 - 1]);
                        }
                    }
                }
            }
        }
    }
}

/// The vault's operations keep entry IDs distinct: changing an entry
/// without changing its ID, removing an entry, and purging deleted entries
/// all leave distinct IDs distinct.
pub proof fn lemma_ids_stay_distinct(s: Seq<PasswordEntry>, k: int, e: PasswordEntry, cutoff: Option<u64>)
    requires
        ids_distinct(s),
        0 <= k < s.len(),
        e.id == s[k].id,
    ensures
        ids_distinct(s.update(k, e)),
        ids_distinct(s.remove(k)),
        ids_distinct(retained(s, cutoff, 0, s.len() as int)),
{
    let t = s.update(k, e);
    assert forall|i: int, j: int| 0 <= i < t.len() && 0 <= j < t.len() && i != j implies #[trigger] t[i].id
        != #[trigger] t[j].id by {
        assert(t[i].id == s[i].id && t[j].id == s[j].id);
    }
    let r = s.remove(k);
    assert forall|i: int, j: int| 0 <= i < r.len() && 0 <= j < r.len() && i != j implies #[trigger] r[i].id
        != #[trigger] r[j].id by {
        let si = if i < k { i } else { i + 1 };
        let sj = if j < k { j } else { j + 1 };
        assert(r[i] == s[si] && r[j] == s[sj]);
    }
    let p = retained(s, cutoff, 0, s.len() as int);
    lemma_retained_from(s, cutoff, 0, s.len() as int);
    assert forall|i: int, j: int| 0 <= i < p.len() && 0 <= j < p.len() && i != j implies #[trigger] p[i].id
        != #[trigger] p[j].id by {
        let (a, b) = if i < j { (i, j) } else { (j, i) };
        let jb = choose|jb: int|
            0 <= jb < s.len() && #[trigger] p[b] == s[jb] && (forall|i2: int|
                0 <= i2 < b ==> exists|j2: int| 0 <= j2 < jb && #[trigger] p[i2] == s[j2]);
        let ja = choose|ja: int| 0 <= ja < jb && #[trigger] p[a] == s[ja];
        assert(s[ja].id != s[jb].id);
    }
}

} // verus!
