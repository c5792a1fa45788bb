//! The lists the vault screen shows: active entries that match the search
//! query, and the entries in Recently Deleted, each in vault order.
use vstd::prelude::*;

use crate::model::{is_active, purged_by, retained, PasswordEntry};
use crate::search::{entry_matches_query, lemma_search_ignores_password, password_entry_matches_search};

verus! {

/// Whether an entry appears in a list: the Recently Deleted list when
/// `deleted`, else the active list filtered by `query`.
pub open spec fn listed(e: PasswordEntry, query: Seq<char>, deleted: bool) -> bool {
    if deleted {
        e.deleted_unix is Some
    } else {
        is_active(e) && entry_matches_query(e, query)
    }
}

/// How many of the first `hi` entries appear in the list.
pub open spec fn listed_count(s: Seq<PasswordEntry>, query: Seq<char>, deleted: bool, hi: int) -> nat
    decreases hi,
{
    if hi <= 0 {
        0
    } else {
        listed_count(s, query, deleted, hi - 1) + if listed(s[hi - 1], query, deleted) {
            1nat
        } else {
            0nat
        }
    }
}

/// How many entries appear in the list.
pub open spec fn list_len(s: Seq<PasswordEntry>, query: Seq<char>, deleted: bool) -> nat {
    listed_count(s, query, deleted, s.len() as int)
}

/// The vault index, at or after `start`, of the list's `n`-th row (counting
/// from 0), or -1 when there is none there.
pub open spec fn nth_listed_from(s: Seq<PasswordEntry>, query: Seq<char>, deleted: bool, n: int, start: int) -> int
    decreases s.len() - start,
{
    if start < 0 || start >= s.len() {
        -1
    } else if listed(s[start], query, deleted) && listed_count(s, query, deleted, start) == n {
        start
    } else {
        nth_listed_from(s, query, deleted, n, start + 1)
    }
}

/// The vault index of the list's `n`-th row, or -1 when the list is shorter.
pub open spec fn nth_listed(s: Seq<PasswordEntry>, query: Seq<char>, deleted: bool, n: int) -> int {
    nth_listed_from(s, query, deleted, n, 0)
}

/// A list never counts more rows than it looks at.
pub proof fn lemma_listed_count_bounds(s: Seq<PasswordEntry>, query: Seq<char>, deleted: bool, hi: int)
    ensures
        listed_count(s, query, deleted, hi) <= if hi < 0 { 0 } else { hi },
    decreases hi,
{
    if hi > 0 {
        lemma_listed_count_bounds(s, query, deleted, hi - 1);
    }
}

/// Counts grow with the prefix they look at.
pub proof fn lemma_listed_count_monotone(s: Seq<PasswordEntry>, query: Seq<char>, deleted: bool, lo: int, hi: int)
    requires
        lo <= hi,
    ensures
        listed_count(s, query, deleted, lo) <= listed_count(s, query, deleted, hi),
    decreases hi - lo,
{
    if lo < hi {
        lemma_listed_count_monotone(s, query, deleted, lo, hi - 1);
    }
}

/// The `n`-th row lies in the vault, appears in the list, and has exactly
/// `n` rows before it; it exists exactly when the list has more than `n`
/// rows.
pub proof fn lemma_nth_listed(s: Seq<PasswordEntry>, query: Seq<char>, deleted: bool, n: int, start: int)
    requires
        0 <= start <= s.len(),
        0 <= n,
        listed_count(s, query, deleted, start) <= n,
    ensures
        ({
            let k = nth_listed_from(s, query, deleted, n, start);
            &&& (k == -1 <==> list_len(s, query, deleted) <= n)
            &&& k != -1 ==> {
                &&& start <= k < s.len()
                &&& listed(s[k], query, deleted)
                &&& listed_count(s, query, deleted, k) == n
            }
        }),
    decreases s.len() - start,
{
    if start < s.len() {
        lemma_nth_listed_step(s, query, deleted, start);
        if listed(s[start], query, deleted) && listed_count(s, query, deleted, start) == n {
            lemma_listed_count_monotone(s, query, deleted, start + 1, s.len() as int);
        } else {
            lemma_nth_listed(s, query, deleted, n, start + 1);
        }
    }
}

/// An entry that appears in the list sits in the row numbered by how many
/// listed entries come before it.
pub proof fn lemma_nth_listed_at(s: Seq<PasswordEntry>, query: Seq<char>, deleted: bool, k: int, start: int)
    requires
        0 <= start <= k < s.len(),
        listed(s[k], query, deleted),
    ensures
        nth_listed_from(s, query, deleted, listed_count(s, query, deleted, k) as int, start) == k,
    decreases k - start,
{
    if start < k {
        if listed(s[start], query, deleted) {
            lemma_nth_listed_step(s, query, deleted, start);
            lemma_listed_count_monotone(s, query, deleted, start + 1, k);
        }
        lemma_nth_listed_at(s, query, deleted, k, start + 1);
    }
}


/// A count only looks at the entries before its bound.
pub proof fn lemma_listed_count_prefix(s: Seq<PasswordEntry>, t: Seq<PasswordEntry>, query: Seq<char>, deleted: bool, i: int)
    requires
        0 <= i <= s.len(),
        i <= t.len(),
        forall|j: int| 0 <= j < i ==> s[j] == t[j],
    ensures
        listed_count(s, query, deleted, i) == listed_count(t, query, deleted, i),
    decreases i,
{
    if i > 0 {
        lemma_listed_count_prefix(s, t, query, deleted, i - 1);
    }
}

/// The rows of a concatenation are the rows of each part.
pub proof fn lemma_list_len_concat(a: Seq<PasswordEntry>, b: Seq<PasswordEntry>, query: Seq<char>, deleted: bool)
    ensures
        list_len(a + b, query, deleted) == list_len(a, query, deleted) + list_len(b, query, deleted),
{
    lemma_listed_count_concat(a, b, query, deleted, b.len() as int);
}

proof fn lemma_listed_count_concat(a: Seq<PasswordEntry>, b: Seq<PasswordEntry>, query: Seq<char>, deleted: bool, j: int)
    requires
        0 <= j <= b.len(),
    ensures
        listed_count(a + b, query, deleted, a.len() + j) == list_len(a, query, deleted) + listed_count(
            b,
            query,
            deleted,
            j,
        ),
    decreases j,
{
    if j > 0 {
        lemma_listed_count_concat(a, b, query, deleted, j - 1);
        assert((a + b)[a.len() + j - 1] == b[j - 1]);
    } else {
        lemma_listed_count_prefix(a + b, a, query, deleted, a.len() as int);
    }
}

/// Pushing an entry adds a row exactly when the entry is listed.
pub proof fn lemma_list_len_push(s: Seq<PasswordEntry>, x: PasswordEntry, query: Seq<char>, deleted: bool)
    ensures
        list_len(s.push(x), query, deleted) == list_len(s, query, deleted) + if listed(x, query, deleted) {
            1nat
        } else {
            0nat
        },
{
    lemma_listed_count_prefix(s.push(x), s, query, deleted, s.len() as int);
}

/// Replacing an entry swaps its row for the new entry's.
pub proof fn lemma_list_len_update(s: Seq<PasswordEntry>, k: int, x: PasswordEntry, query: Seq<char>, deleted: bool)
    requires
        0 <= k < s.len(),
    ensures
        list_len(s.update(k, x), query, deleted) + (if listed(s[k], query, deleted) {
            1nat
        } else {
            0nat
        }) == list_len(s, query, deleted) + (if listed(x, query, deleted) {
            1nat
        } else {
            0nat
        }),
{
    lemma_listed_count_update(s, k, x, query, deleted, s.len() as int);
}

proof fn lemma_listed_count_update(s: Seq<PasswordEntry>, k: int, x: PasswordEntry, query: Seq<char>, deleted: bool, i: int)
    requires
        0 <= k < i <= s.len(),
    ensures
        listed_count(s.update(k, x), query, deleted, i) + (if listed(s[k], query, deleted) {
            1nat
        } else {
            0nat
        }) == listed_count(s, query, deleted, i) + (if listed(x, query, deleted) {
            1nat
        } else {
            0nat
        }),
    decreases i,
{
    if i > k + 1 {
        lemma_listed_count_update(s, k, x, query, deleted, i - 1);
    } else {
        lemma_listed_count_prefix(s.update(k, x), s, query, deleted, k);
    }
}

/// Removing an entry takes its row away.
pub proof fn lemma_list_len_remove(s: Seq<PasswordEntry>, k: int, query: Seq<char>, deleted: bool)
    requires
        0 <= k < s.len(),
    ensures
        list_len(s.remove(k), query, deleted) + (if listed(s[k], query, deleted) {
            1nat
        } else {
            0nat
        }) == list_len(s, query, deleted),
{
    lemma_listed_count_remove(s, k, query, deleted, s.len() as int - 1);
}

proof fn lemma_listed_count_remove(s: Seq<PasswordEntry>, k: int, query: Seq<char>, deleted: bool, i: int)
    requires
        0 <= k <= i < s.len(),
    ensures
        listed_count(s.remove(k), query, deleted, i) + (if listed(s[k], query, deleted) {
            1nat
        } else {
            0nat
        }) == listed_count(s, query, deleted, i + 1),
    decreases i,
{
    if i > k {
        lemma_listed_count_remove(s, k, query, deleted, i - 1);
        assert(s.remove(k)[i - 1] == s[i]);
    } else {
        lemma_listed_count_prefix(s.remove(k), s, query, deleted, k);
    }
}


/// Purging deleted entries keeps every row of the active list.
pub proof fn lemma_purge_keeps_active_rows(s: Seq<PasswordEntry>, cutoff: Option<u64>, query: Seq<char>, lo: int)
    requires
        0 <= lo <= s.len(),
    ensures
        list_len(retained(s, cutoff, lo, s.len() as int), query, false) == list_len(
            s.subrange(lo, s.len() as int),
            query,
            false,
        ),
    decreases s.len() - lo,
{
    let n = s.len() as int;
    if lo < n {
        lemma_purge_keeps_active_rows(s, cutoff, query, lo + 1);
        let rest = s.subrange(lo + 1, n);
        assert(s.subrange(lo, n) =~= seq![s[lo]] + rest);
        lemma_list_len_concat(seq![s[lo]], rest, query, false);
        let one = seq![s[lo]];
        assert(listed_count(one, query, false, 0) == 0);
        assert(one[0] == s[lo]);
        assert(list_len(one, query, false) == if listed(s[lo], query, false) {
            1nat
        } else {
            0nat
        });
        if !purged_by(s[lo], cutoff) {
            lemma_list_len_concat(seq![s[lo]], retained(s, cutoff, lo + 1, n), query, false);
        }
    } else {
        assert(s.subrange(lo, n) =~= Seq::<PasswordEntry>::empty());
    }
}

/// One step of a count.
proof fn lemma_nth_listed_step(s: Seq<PasswordEntry>, query: Seq<char>, deleted: bool, i: int)
    requires
        0 <= i,
    ensures
        listed_count(s, query, deleted, i + 1) == listed_count(s, query, deleted, i) + if listed(
            s[i],
            query,
            deleted,
        ) {
            1nat
        } else {
            0nat
        },
{
}

/// Whether an entry appears in a list, computed.
pub fn is_listed(e: &PasswordEntry, query: &str, deleted: bool) -> (b: bool)
    ensures
        b == listed(*e, query@, deleted),
{
    if deleted {
        e.deleted_unix.is_some()
    } else {
        e.deleted_unix.is_none() && password_entry_matches_search(e, query)
    }
}

/// How many of the first `hi` entries appear in a list.
pub fn count_listed_to(entries: &Vec<PasswordEntry>, query: &str, deleted: bool, hi: usize) -> (n: usize)
    requires
        hi <= entries@.len(),
    ensures
        n == listed_count(entries@, query@, deleted, hi as int),
{
    let mut n: usize = 0;
    let mut i: usize = 0;
    while i < hi
        invariant
            i <= hi <= entries@.len(),
            n == listed_count(entries@, query@, deleted, i as int),
        decreases hi - i,
    {
        proof {
            lemma_listed_count_bounds(entries@, query@, deleted, i as int);
        }
        if is_listed(&entries[i], query, deleted) {
            n = n + 1;
        }
        i = i + 1;
    }
    n
}

/// How many entries appear in a list.
pub fn count_listed(entries: &Vec<PasswordEntry>, query: &str, deleted: bool) -> (n: usize)
    ensures
        n == list_len(entries@, query@, deleted),
{
    count_listed_to(entries, query, deleted, entries.len())
}

/// The vault index of a list's `n`-th row, if the list is that long.
pub fn find_listed(entries: &Vec<PasswordEntry>, query: &str, deleted: bool, n: usize) -> (k: Option<usize>)
    ensures
        match k {
            Some(k) => k as int == nth_listed(entries@, query@, deleted, n as int),
            None => nth_listed(entries@, query@, deleted, n as int) == -1,
        },
{
    let ghost s = entries@;
    let ghost q = query@;
    let mut c: usize = 0;
    let mut i: usize = 0;
    while i < entries.len()
        invariant
            i <= s.len(),
            s == entries@,
            q == query@,
            c == listed_count(s, q, deleted, i as int),
            nth_listed(s, q, deleted, n as int) == nth_listed_from(s, q, deleted, n as int, i as int),
        decreases s.len() - i,
    {
        proof {
            lemma_listed_count_bounds(s, q, deleted, i as int);
        }
        if is_listed(&entries[i], query, deleted) {
            if c == n {
                return Some(i);
            }
            c = c + 1;
        }
        i = i + 1;
    }
    None
}

/// Whether two entries look the same on screen: every field but the
/// password is equal, and the passwords have the same length.
pub open spec fn shown_alike(a: PasswordEntry, b: PasswordEntry) -> bool {
    &&& a.id == b.id
    &&& a.title@ == b.title@
    &&& a.username@ == b.username@
    &&& a.url@ == b.url@
    &&& a.notes@ == b.notes@
    &&& a.deleted_unix == b.deleted_unix
    &&& a.password@.len() == b.password@.len()
}

/// Whether two entry lists differ at most in their passwords, each keeping
/// its length.
pub open spec fn entries_alike(s: Seq<PasswordEntry>, t: Seq<PasswordEntry>) -> bool {
    &&& s.len() == t.len()
    &&& forall|i: int| 0 <= i < s.len() ==> shown_alike(#[trigger] s[i], t[i])
}

/// Entries that look alike appear in the same lists.
pub proof fn lemma_alike_listed(a: PasswordEntry, b: PasswordEntry, query: Seq<char>, deleted: bool)
    requires
        shown_alike(a, b),
    ensures
        listed(a, query, deleted) == listed(b, query, deleted),
{
    lemma_search_ignores_password(a, b, query);
}

/// Lists that differ only in passwords count the same rows.
pub proof fn lemma_alike_counts(s: Seq<PasswordEntry>, t: Seq<PasswordEntry>, query: Seq<char>, deleted: bool, hi: int)
    requires
        entries_alike(s, t),
        hi <= s.len(),
    ensures
        listed_count(s, query, deleted, hi) == listed_count(t, query, deleted, hi),
    decreases hi,
{
    if hi > 0 {
        lemma_alike_counts(s, t, query, deleted, hi - 1);
        lemma_alike_listed(s[hi - 1], t[hi - 1], query, deleted);
    }
}

/// Lists that differ only in passwords put the same entries in the same
/// rows.
pub proof fn lemma_alike_rows(s: Seq<PasswordEntry>, t: Seq<PasswordEntry>, query: Seq<char>, deleted: bool, n: int, start: int)
    requires
        entries_alike(s, t),
    ensures
        nth_listed_from(s, query, deleted, n, start) == nth_listed_from(t, query, deleted, n, start),
    decreases s.len() - start,
{
    if 0 <= start < s.len() {
        lemma_alike_listed(s[start], t[start], query, deleted);
        lemma_alike_counts(s, t, query, deleted, start);
        lemma_alike_rows(s, t, query, deleted, n, start + 1);
    }
}

/// A row lookup gives -1 or an index of the list.
pub proof fn lemma_nth_listed_range(s: Seq<PasswordEntry>, query: Seq<char>, deleted: bool, n: int, start: int)
    ensures
        nth_listed_from(s, query, deleted, n, start) == -1 || (0 <= nth_listed_from(s, query, deleted, n, start) < s.len()),
    decreases s.len() - start,
{
    if 0 <= start < s.len() {
        lemma_nth_listed_range(s, query, deleted, n, start + 1);
    }
}

} // verus!
