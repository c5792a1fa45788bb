//! Live search over the visible fields of password entries.
use vstd::prelude::*;
use vstd::utf8::encode_utf8;

use crate::model::PasswordEntry;
use crate::text::{eq_ignore_ascii_case_at, eq_ignore_case};

verus! {

/// Whether `needle` occurs in `haystack` ignoring ASCII case; the empty
/// needle occurs everywhere.
pub open spec fn contains_ignore_case(haystack: Seq<u8>, needle: Seq<u8>) -> bool {
    needle.len() == 0 || exists|w: int|
        0 <= w && w + needle.len() <= haystack.len() && #[trigger] eq_ignore_case(
            haystack.subrange(w, w + needle.len()),
            needle,
        )
}

/// Whether an entry matches a search query: the query is empty or occurs,
/// ignoring ASCII case, in the title, username, URL or notes. The password is
/// never searched.
pub open spec fn entry_matches_query(e: PasswordEntry, query: Seq<char>) -> bool {
    let q = encode_utf8(query);
    ||| query.len() == 0
    ||| contains_ignore_case(encode_utf8(e.title@), q)
    ||| contains_ignore_case(encode_utf8(e.username@), q)
    ||| contains_ignore_case(encode_utf8(e.url@), q)
    ||| contains_ignore_case(encode_utf8(e.notes@), q)
}

/// Whether `needle` occurs in `haystack`, ignoring ASCII case.
pub fn contains_ascii_case_insensitive(haystack: &str, needle: &str) -> (r: bool)
    ensures
        r == contains_ignore_case(encode_utf8(haystack@), encode_utf8(needle@)),
{
    if needle.is_empty() {
        proof {
            assert(encode_utf8(needle@).len() == 0) by {
                assert(needle@ =~= Seq::<char>::empty());
                vstd::utf8::encode_utf8_decode_utf8(needle@);
            }
        }
        return true;
    }
    let h = haystack.as_bytes();
    let n = needle.as_bytes();
    if n.len() == 0 {
        return true;
    }
    if n.len() > h.len() {
        return false;
    }
    let mut w: usize = 0;
    while w <= h.len() - n.len()
        invariant
            0 < n@.len() <= h@.len(),
            h@ == encode_utf8(haystack@),
            n@ == encode_utf8(needle@),
            forall|v: int| 0 <= v < w ==> !#[trigger] eq_ignore_case(h@.subrange(v, v + n@.len()), n@),
        decreases h@.len() - w,
    {
        if eq_ignore_ascii_case_at(h, w, n.len(), n) {
            assert(eq_ignore_case(h@.subrange(w as int, w + n@.len()), n@));
            return true;
        }
        w = w + 1;
    }
    false
}

/// Whether an entry matches a search query. Only the title, username, URL
/// and notes are searched, never the password.
pub fn password_entry_matches_search(entry: &PasswordEntry, query: &str) -> (r: bool)
    ensures
        r == entry_matches_query(*entry, query@),
{
    query.is_empty() || contains_ascii_case_insensitive(entry.title.as_str(), query)
        || contains_ascii_case_insensitive(entry.username.as_str(), query)
        || contains_ascii_case_insensitive(entry.url.as_str(), query)
        || contains_ascii_case_insensitive(entry.notes.as_str(), query)
}

/// Search never looks at passwords: two entries that differ only in their
/// password match exactly the same queries.
pub proof fn lemma_search_ignores_password(a: PasswordEntry, b: PasswordEntry, query: Seq<char>)
    requires
        a.title@ == b.title@,
        a.username@ == b.username@,
        a.url@ == b.url@,
        a.notes@ == b.notes@,
    ensures
        entry_matches_query(a, query) == entry_matches_query(b, query),
{
}

} // verus!
