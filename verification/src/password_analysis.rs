//! Password health checks: exact reuse across active entries, and concrete
//! weakness patterns in individual passwords.
use vstd::prelude::*;
use vstd::utf8::encode_utf8;

use crate::model::PasswordEntry;
use crate::text::{chars_of, eq_ignore_ascii_case_at, eq_ignore_case, lower, lower_byte};

verus! {

/// An active entry whose password shows at least one weakness.
pub struct WeakPasswordFinding<'a> {
    pub entry: &'a PasswordEntry,
    pub reasons: Vec<&'static str>,
}

/// Whether an entry takes part in the checks: it is active and has a password.
pub open spec fn checked(e: PasswordEntry) -> bool {
    e.deleted_unix is None && e.password@.len() > 0
}

/// Whether entry `j` is checked and has the same password as entry `i`.
pub open spec fn reuses(s: Seq<PasswordEntry>, i: int, j: int) -> bool {
    checked(s[j]) && s[j].password@ == s[i].password@
}

/// Whether entry `i` is checked and no earlier checked entry has its password.
pub open spec fn leads_group(s: Seq<PasswordEntry>, i: int) -> bool {
    checked(s[i]) && forall|j: int| 0 <= j < i ==> !reuses(s, i, j)
}

/// The indices in `[i, hi)` of checked entries with the password of entry `i`.
pub open spec fn group_upto(s: Seq<PasswordEntry>, i: int, hi: int) -> Seq<int>
    decreases hi - i,
{
    if hi <= i {
        Seq::empty()
    } else if reuses(s, i, hi - 1) {
        group_upto(s, i, hi - 1).push(hi - 1)
    } else {
        group_upto(s, i, hi - 1)
    }
}

/// The reuse group led by entry `i`: every checked entry from `i` on with
/// the same password, in order.
pub open spec fn reuse_group(s: Seq<PasswordEntry>, i: int) -> Seq<int> {
    group_upto(s, i, s.len() as int)
}

/// The reuse groups led by entries before `hi` that have two or more members,
/// in order of their first entry.
pub open spec fn groups_upto(s: Seq<PasswordEntry>, hi: int) -> Seq<Seq<int>>
    decreases hi,
{
    if hi <= 0 {
        Seq::empty()
    } else if leads_group(s, hi - 1) && reuse_group(s, hi - 1).len() > 1 {
        groups_upto(s, hi - 1).push(reuse_group(s, hi - 1))
    } else {
        groups_upto(s, hi - 1)
    }
}

/// All reuse groups of an entry list.
pub open spec fn reuse_groups(s: Seq<PasswordEntry>) -> Seq<Seq<int>> {
    groups_upto(s, s.len() as int)
}

/// Whether a byte is an ASCII letter.
pub open spec fn is_alpha(b: u8) -> bool {
    (65 <= b <= 90) || (97 <= b <= 122)
}

/// Whether a byte is an ASCII digit.
pub open spec fn is_digit(b: u8) -> bool {
    48 <= b <= 57
}

/// Whether every byte is ASCII.
pub open spec fn all_ascii(b: Seq<u8>) -> bool {
    forall|i: int| 0 <= i < b.len() ==> b[i] < 128
}

/// Common passwords that are weak as they are.
pub open spec fn common_exact() -> Seq<Seq<char>> {
    seq!["123456"@, "12345678"@, "123456789"@, "111111"@, "000000"@, "abc123"@, "qwerty"@]
}

/// Common words that stay weak with a non-letter suffix.
pub open spec fn common_stems() -> Seq<Seq<char>> {
    seq![
        "password"@,
        "welcome"@,
        "letmein"@,
        "qwerty"@,
        "admin"@,
        "iloveyou"@,
        "monkey"@,
        "dragon"@,
        "football"@,
    ]
}

/// The length of `b[..end]` once trailing non-letters are dropped.
pub open spec fn stem_end(b: Seq<u8>, end: int) -> int
    decreases end,
{
    if end > 0 && !is_alpha(b[end - 1]) {
        stem_end(b, end - 1)
    } else {
        end
    }
}

/// `b` without its trailing non-letters.
pub open spec fn stem(b: Seq<u8>) -> Seq<u8> {
    b.subrange(0, stem_end(b, b.len() as int))
}

/// An ASCII password equal, up to case, to a common password, or to a common
/// word once its trailing non-letters are dropped.
pub open spec fn matches_common(b: Seq<u8>) -> bool {
    &&& all_ascii(b)
    &&& {
        ||| exists|k: int| 0 <= k < common_exact().len() && eq_ignore_case(b, encode_utf8(#[trigger] common_exact()[k]))
        ||| exists|k: int| 0 <= k < common_stems().len() && eq_ignore_case(stem(b), encode_utf8(#[trigger] common_stems()[k]))
    }
}

/// Two or more characters, all the same.
pub open spec fn single_repetition(p: Seq<char>) -> bool {
    p.len() >= 2 && forall|i: int| 0 <= i < p.len() ==> #[trigger] p[i] == p[0]
}

/// Whether `b` is `b[..len]` repeated.
pub open spec fn repeats_with(b: Seq<u8>, len: int) -> bool {
    &&& (b.len() as int) % len == 0
    &&& forall|i: int| len <= i < b.len() ==> #[trigger] b[i] == b[i % len]
}

/// An ASCII password of six or more bytes that is a pattern of two or more
/// bytes repeated.
pub open spec fn repeated_pattern(b: Seq<u8>) -> bool {
    &&& all_ascii(b)
    &&& b.len() >= 6
    &&& exists|len: int| 2 <= len <= b.len() / 2 && #[trigger] repeats_with(b, len)
}

/// `x + 1`, held at 255.
pub open spec fn saturating_inc(x: u8) -> u8 {
    if x == 255 {
        255
    } else {
        (x + 1) as u8
    }
}

/// Whether `b[k + 1]` is one above `b[k]`, ignoring case.
pub open spec fn steps_up(b: Seq<u8>, k: int) -> bool {
    lower(b[k + 1]) == saturating_inc(lower(b[k]))
}

/// Whether `b[k + 1]` is one below `b[k]`, ignoring case.
pub open spec fn steps_down(b: Seq<u8>, k: int) -> bool {
    lower(b[k]) == saturating_inc(lower(b[k + 1]))
}

/// Whether the four bytes from `w` are all digits or all letters and each is
/// one above (ascending) or one below (descending) the previous, ignoring case.
pub open spec fn sequence_at(b: Seq<u8>, w: int) -> bool {
    &&& (is_digit(b[w]) && is_digit(b[w + 1]) && is_digit(b[w + 2]) && is_digit(b[w + 3])) || (is_alpha(b[w])
        && is_alpha(b[w + 1]) && is_alpha(b[w + 2]) && is_alpha(b[w + 3]))
    &&& (steps_up(b, w) && steps_up(b, w + 1) && steps_up(b, w + 2)) || (steps_down(b, w) && steps_down(b, w + 1)
        && steps_down(b, w + 2))
}

/// A run of four ascending or descending digits or letters.
pub open spec fn obvious_sequence(b: Seq<u8>) -> bool {
    exists|w: int| 0 <= w && w + 4 <= b.len() && #[trigger] sequence_at(b, w)
}

/// Character classes: ASCII lowercase, ASCII uppercase, ASCII digit, other.
pub open spec fn in_class(c: char, class: int) -> bool {
    if class == 0 {
        'a' <= c <= 'z'
    } else if class == 1 {
        'A' <= c <= 'Z'
    } else if class == 2 {
        '0' <= c <= '9'
    } else {
        !(('a' <= c <= 'z') || ('A' <= c <= 'Z') || ('0' <= c <= '9'))
    }
}

/// Whether some character of `p` is in the class.
pub open spec fn has_class(p: Seq<char>, class: int) -> bool {
    exists|i: int| 0 <= i < p.len() && in_class(#[trigger] p[i], class)
}

/// How many of the four character classes occur in `p`.
pub open spec fn class_count(p: Seq<char>) -> nat {
    (if has_class(p, 0) { 1nat } else { 0nat }) + (if has_class(p, 1) { 1nat } else { 0nat }) + (if has_class(p, 2) {
        1nat
    } else {
        0nat
    }) + (if has_class(p, 3) { 1nat } else { 0nat })
}

/// The weaknesses of a password, in reporting order.
pub open spec fn weakness_texts(p: Seq<char>) -> Seq<Seq<char>> {
    let b = encode_utf8(p);
    let r0 = Seq::<Seq<char>>::empty();
    let r1 = if p.len() < 12 { r0.push("Fewer than 12 characters."@) } else { r0 };
    let r2 = if matches_common(b) {
        r1.push("Matches a common password pattern or predictable variation."@)
    } else {
        r1
    };
    let r3 = if single_repetition(p) {
        r2.push("Repeats the same character throughout."@)
    } else if repeated_pattern(b) {
        r2.push("Built by repeating a short pattern."@)
    } else {
        r2
    };
    let r4 = if obvious_sequence(b) {
        r3.push("Contains an obvious ascending or descending sequence."@)
    } else {
        r3
    };
    if p.len() < 16 && class_count(p) == 1 {
        r4.push("Uses only one character class while shorter than 16 characters."@)
    } else {
        r4
    }
}

/// The indices before `hi` of checked entries whose password has a weakness.
pub open spec fn weak_upto(s: Seq<PasswordEntry>, hi: int) -> Seq<int>
    decreases hi,
{
    if hi <= 0 {
        Seq::empty()
    } else if checked(s[hi - 1]) && weakness_texts(s[hi - 1].password@).len() > 0 {
        weak_upto(s, hi - 1).push(hi - 1)
    } else {
        weak_upto(s, hi - 1)
    }
}

/// The views of a list of static texts.
pub open spec fn texts(v: Seq<&'static str>) -> Seq<Seq<char>> {
    v.map_values(|t: &'static str| t@)
}

/// Whether some earlier checked entry has the password of entry `i`.
fn reused_earlier(entries: &[PasswordEntry], i: usize) -> (found: bool)
    requires
        i < entries@.len(),
    ensures
        found == exists|j: int| 0 <= j < i && reuses(entries@, i as int, j),
{
    let mut j: usize = 0;
    while j < i
        invariant
            j <= i < entries@.len(),
            forall|k: int| 0 <= k < j ==> !reuses(entries@, i as int, k),
        decreases i - j,
    {
        let other = &entries[j];
        if other.deleted_unix.is_none() && !other.password.as_str().is_empty() && other.password == entries[i].password {
            assert(reuses(entries@, i as int, j as int));
            return true;
        }
        j = j + 1;
    }
    false
}

/// The reuse group led by entry `i`.
fn collect_group<'a>(entries: &'a [PasswordEntry], i: usize) -> (group: Vec<&'a PasswordEntry>)
    requires
        i < entries@.len(),
    ensures
        group@.len() == reuse_group(entries@, i as int).len(),
        forall|k: int| 0 <= k < group@.len() ==> *group@[k] == entries@[reuse_group(entries@, i as int)[k]],
{
    let mut group: Vec<&'a PasswordEntry> = Vec::new();
    let mut j: usize = i;
    while j < entries.len()
        invariant
            i <= j <= entries@.len(),
            group@.len() == group_upto(entries@, i as int, j as int).len(),
            forall|k: int| 0 <= k < group@.len() ==> *group@[k] == entries@[group_upto(entries@, i as int, j as int)[k]],
        decreases entries@.len() - j,
    {
        let candidate = &entries[j];
        if candidate.deleted_unix.is_none() && !candidate.password.as_str().is_empty() && candidate.password
            == entries[i].password {
            group.push(candidate);
        }
        j = j + 1;
    }
    group
}

/// Groups of active entries that share the same non-empty password, each
/// listed from its first entry, groups in order of their first entry. Deleted
/// entries and empty passwords never take part; unique passwords give no
/// group.
pub fn reused_password_groups(entries: &[PasswordEntry]) -> (groups: Vec<Vec<&PasswordEntry>>)
    ensures
        groups@.len() == reuse_groups(entries@).len(),
        forall|g: int|
            0 <= g < groups@.len() ==> #[trigger] groups@[g]@.len() == reuse_groups(entries@)[g].len(),
        forall|g: int, k: int|
            0 <= g < groups@.len() && 0 <= k < groups@[g]@.len() ==> *#[trigger] groups@[g]@[k]
                == entries@[reuse_groups(entries@)[g][k]],
{
    let mut groups: Vec<Vec<&PasswordEntry>> = Vec::new();
    let mut i: usize = 0;
    while i < entries.len()
        invariant
            i <= entries@.len(),
            groups@.len() == groups_upto(entries@, i as int).len(),
            forall|g: int|
                0 <= g < groups@.len() ==> #[trigger] groups@[g]@.len() == groups_upto(entries@, i as int)[g].len(),
            forall|g: int, k: int|
                0 <= g < groups@.len() && 0 <= k < groups@[g]@.len() ==> *#[trigger] groups@[g]@[k]
                    == entries@[groups_upto(entries@, i as int)[g][k]],
        decreases entries@.len() - i,
    {
        let entry = &entries[i];
        if entry.deleted_unix.is_none() && !entry.password.as_str().is_empty() && !reused_earlier(entries, i) {
            let group = collect_group(entries, i);
            if group.len() > 1 {
                groups.push(group);
            }
        }
        i = i + 1;
    }
    groups
}

/// Whether every byte is ASCII.
fn bytes_ascii(b: &[u8]) -> (r: bool)
    ensures
        r == all_ascii(b@),
{
    let mut i: usize = 0;
    while i < b.len()
        invariant
            i <= b@.len(),
            forall|k: int| 0 <= k < i ==> b@[k] < 128,
        decreases b@.len() - i,
    {
        if b[i] >= 128 {
            return false;
        }
        i = i + 1;
    }
    true
}

fn alpha_byte(b: u8) -> (r: bool)
    ensures
        r == is_alpha(b),
{
    (65 <= b && b <= 90) || (97 <= b && b <= 122)
}

/// Whether the password matches a common password, or a common word with a
/// non-letter suffix, ignoring ASCII case. Non-ASCII passwords never match.
pub fn matches_common_password_pattern(password: &str) -> (r: bool)
    ensures
        r == matches_common(encode_utf8(password@)),
{
    let bytes = password.as_bytes();
    if !bytes_ascii(bytes) {
        return false;
    }
    let exact: [&str; 7] = ["123456", "12345678", "123456789", "111111", "000000", "abc123", "qwerty"];
    assert(exact@.map_values(|w: &str| w@) =~= common_exact());
    let mut k: usize = 0;
    while k < 7
        invariant
            k <= 7,
            exact@.map_values(|w: &str| w@) == common_exact(),
            all_ascii(bytes@),
            bytes@ == encode_utf8(password@),
            forall|j: int| 0 <= j < k ==> !eq_ignore_case(bytes@, encode_utf8(#[trigger] common_exact()[j])),
        decreases 7 - k,
    {
        assert(exact@.map_values(|w: &str| w@)[k as int] == exact@[k as int]@);
        let candidate = exact[k].as_bytes();
        assert(bytes@.subrange(0, bytes@.len() as int) =~= bytes@);
        if eq_ignore_ascii_case_at(bytes, 0, bytes.len(), candidate) {
            assert(eq_ignore_case(bytes@, encode_utf8(common_exact()[k as int])));
            return true;
        }
        k = k + 1;
    }
    let mut end: usize = bytes.len();
    while end > 0 && !alpha_byte(bytes[end - 1])
        invariant
            end <= bytes@.len(),
            stem_end(bytes@, bytes@.len() as int) == stem_end(bytes@, end as int),
        decreases end,
    {
        end = end - 1;
    }
    let stems: [&str; 9] = ["password", "welcome", "letmein", "qwerty", "admin", "iloveyou", "monkey", "dragon", "football"];
    assert(stems@.map_values(|w: &str| w@) =~= common_stems());
    let mut s: usize = 0;
    while s < 9
        invariant
            s <= 9,
            end <= bytes@.len(),
            end == stem_end(bytes@, bytes@.len() as int),
            stems@.map_values(|w: &str| w@) == common_stems(),
            all_ascii(bytes@),
            bytes@ == encode_utf8(password@),
            forall|j: int| 0 <= j < common_exact().len() ==> !eq_ignore_case(bytes@, encode_utf8(#[trigger] common_exact()[j])),
            forall|j: int| 0 <= j < s ==> !eq_ignore_case(stem(bytes@), encode_utf8(#[trigger] common_stems()[j])),
        decreases 9 - s,
    {
        assert(stems@.map_values(|w: &str| w@)[s as int] == stems@[s as int]@);
        let candidate = stems[s].as_bytes();
        if eq_ignore_ascii_case_at(bytes, 0, end, candidate) {
            assert(eq_ignore_case(stem(bytes@), encode_utf8(common_stems()[s as int])));
            return true;
        }
        s = s + 1;
    }
    false
}

/// Whether the password is two or more copies of one character.
pub fn is_single_character_repetition(password: &str) -> (r: bool)
    ensures
        r == single_repetition(password@),
{
    let chars = chars_of(password);
    if chars.len() < 2 {
        return false;
    }
    let first = chars[0];
    let mut i: usize = 1;
    while i < chars.len()
        invariant
            1 <= i <= chars@.len(),
            chars@ == password@,
            first == chars@[0],
            forall|k: int| 0 <= k < i ==> chars@[k] == first,
        decreases chars@.len() - i,
    {
        if chars[i] != first {
            assert(chars@[i as int] != chars@[0]);
            return false;
        }
        i = i + 1;
    }
    true
}

/// Whether `bytes` is `bytes[..len]` repeated.
fn repeats_prefix(bytes: &[u8], len: usize) -> (r: bool)
    requires
        0 < len <= bytes@.len(),
    ensures
        r == repeats_with(bytes@, len as int),
{
    if bytes.len() % len != 0 {
        return false;
    }
    let mut i: usize = len;
    while i < bytes.len()
        invariant
            0 < len <= i,
            len <= bytes@.len(),
            (bytes@.len() as int) % (len as int) == 0,
            forall|k: int| len <= k < i ==> #[trigger] bytes@[k] == bytes@[k % (len as int)],
        decreases bytes@.len() - i,
    {
        if bytes[i] != bytes[i % len] {
            assert(bytes@[i as int] != bytes@[i as int % len as int]);
            return false;
        }
        i = i + 1;
    }
    true
}

/// Whether an ASCII password of at least six bytes is a short pattern repeated.
pub fn is_repeated_ascii_pattern(bytes: &[u8]) -> (r: bool)
    ensures
        r == repeated_pattern(bytes@),
{
    if !bytes_ascii(bytes) || bytes.len() < 6 {
        return false;
    }
    let mut len: usize = 2;
    while len <= bytes.len() / 2
        invariant
            2 <= len,
            bytes@.len() >= 6,
            all_ascii(bytes@),
            forall|l: int| 2 <= l < len ==> !#[trigger] repeats_with(bytes@, l),
        decreases bytes@.len() - len,
    {
        if repeats_prefix(bytes, len) {
            assert(repeats_with(bytes@, len as int));
            return true;
        }
        len = len + 1;
    }
    false
}

fn digit_byte(b: u8) -> (r: bool)
    ensures
        r == is_digit(b),
{
    48 <= b && b <= 57
}

fn saturating_inc_byte(x: u8) -> (r: u8)
    ensures
        r == saturating_inc(x),
{
    if x == 255 {
        255
    } else {
        x + 1
    }
}

/// Whether the four bytes from `w` form an ascending or descending run.
fn sequence_at_exec(b: &[u8], w: usize) -> (r: bool)
    requires
        w + 4 <= b@.len(),
    ensures
        r == sequence_at(b@, w as int),
{
    let all_digits = digit_byte(b[w]) && digit_byte(b[w + 1]) && digit_byte(b[w + 2]) && digit_byte(b[w + 3]);
    let all_letters = alpha_byte(b[w]) && alpha_byte(b[w + 1]) && alpha_byte(b[w + 2]) && alpha_byte(b[w + 3]);
    if !all_digits && !all_letters {
        return false;
    }
    let l0 = lower_byte(b[w]);
    let l1 = lower_byte(b[w + 1]);
    let l2 = lower_byte(b[w + 2]);
    let l3 = lower_byte(b[w + 3]);
    let ascending = l1 == saturating_inc_byte(l0) && l2 == saturating_inc_byte(l1) && l3 == saturating_inc_byte(l2);
    let descending = l0 == saturating_inc_byte(l1) && l1 == saturating_inc_byte(l2) && l2 == saturating_inc_byte(l3);
    ascending || descending
}

/// Whether some four consecutive bytes are ascending or descending digits or
/// letters (ignoring case), such as `1234` or `DCBA`.
pub fn has_obvious_ascii_sequence(bytes: &[u8]) -> (r: bool)
    ensures
        r == obvious_sequence(bytes@),
{
    if bytes.len() < 4 {
        return false;
    }
    let mut w: usize = 0;
    while w <= bytes.len() - 4
        invariant
            bytes@.len() >= 4,
            w <= bytes@.len() - 3,
            forall|v: int| 0 <= v < w ==> !#[trigger] sequence_at(bytes@, v),
        decreases bytes@.len() - w,
    {
        if sequence_at_exec(bytes, w) {
            return true;
        }
        w = w + 1;
    }
    false
}

/// How many of the classes ASCII lowercase, ASCII uppercase, ASCII digit and
/// other characters occur in the password.
pub fn character_class_count(password: &str) -> (n: usize)
    ensures
        n == class_count(password@),
{
    let chars = chars_of(password);
    let mut lowercase = false;
    let mut uppercase = false;
    let mut digits = false;
    let mut other = false;
    let mut i: usize = 0;
    while i < chars.len()
        invariant
            i <= chars@.len(),
            chars@ == password@,
            lowercase == exists|k: int| 0 <= k < i && in_class(#[trigger] chars@[k], 0),
            uppercase == exists|k: int| 0 <= k < i && in_class(#[trigger] chars@[k], 1),
            digits == exists|k: int| 0 <= k < i && in_class(#[trigger] chars@[k], 2),
            other == exists|k: int| 0 <= k < i && in_class(#[trigger] chars@[k], 3),
        decreases chars@.len() - i,
    {
        let c = chars[i];
        let is_lower = 'a' <= c && c <= 'z';
        let is_upper = 'A' <= c && c <= 'Z';
        let is_digit_char = '0' <= c && c <= '9';
        assert(in_class(c, 0) == is_lower);
        assert(in_class(c, 1) == is_upper);
        assert(in_class(c, 2) == is_digit_char);
        assert(in_class(c, 3) == !(is_lower || is_upper || is_digit_char));
        lowercase = lowercase || is_lower;
        uppercase = uppercase || is_upper;
        digits = digits || is_digit_char;
        other = other || !(is_lower || is_upper || is_digit_char);
        i = i + 1;
    }
    let mut n: usize = 0;
    if lowercase {
        n = n + 1;
    }
    if uppercase {
        n = n + 1;
    }
    if digits {
        n = n + 1;
    }
    if other {
        n = n + 1;
    }
    n
}

/// The weaknesses of a password, in reporting order: shorter than 12
/// characters; a common password or predictable variation; one character
/// repeated, or else a repeated short pattern; an obvious sequence; a single
/// character class while shorter than 16 characters.
pub fn weakness_reasons(password: &str) -> (reasons: Vec<&'static str>)
    ensures
        texts(reasons@) == weakness_texts(password@),
{
    let mut reasons: Vec<&'static str> = Vec::new();
    let character_count = chars_of(password).len();
    let single_character_repetition = is_single_character_repetition(password);
    if character_count < 12 {
        reasons.push("Fewer than 12 characters.");
    }
    if matches_common_password_pattern(password) {
        reasons.push("Matches a common password pattern or predictable variation.");
    }
    if single_character_repetition {
        reasons.push("Repeats the same character throughout.");
    } else if is_repeated_ascii_pattern(password.as_bytes()) {
        reasons.push("Built by repeating a short pattern.");
    }
    if has_obvious_ascii_sequence(password.as_bytes()) {
        reasons.push("Contains an obvious ascending or descending sequence.");
    }
    if character_count < 16 && character_class_count(password) == 1 {
        reasons.push("Uses only one character class while shorter than 16 characters.");
    }
    assert(texts(reasons@) =~= weakness_texts(password@));
    reasons
}

/// The active entries with a non-empty password that shows at least one
/// weakness, in order, each with its reasons. Deleted entries and empty
/// passwords are never reported.
pub fn weak_password_findings(entries: &[PasswordEntry]) -> (findings: Vec<WeakPasswordFinding<'_>>)
    ensures
        findings@.len() == weak_upto(entries@, entries@.len() as int).len(),
        forall|f: int|
            0 <= f < findings@.len() ==> {
                let i = weak_upto(entries@, entries@.len() as int)[f];
                &&& *#[trigger] findings@[f].entry == entries@[i]
                &&& texts(findings@[f].reasons@) == weakness_texts(entries@[i].password@)
            },
{
    let mut findings: Vec<WeakPasswordFinding<'_>> = Vec::new();
    let mut i: usize = 0;
    while i < entries.len()
        invariant
            i <= entries@.len(),
            findings@.len() == weak_upto(entries@, i as int).len(),
            forall|f: int|
                0 <= f < findings@.len() ==> {
                    let k = weak_upto(entries@, i as int)[f];
                    &&& *#[trigger] findings@[f].entry == entries@[k]
                    &&& texts(findings@[f].reasons@) == weakness_texts(entries@[k].password@)
                },
        decreases entries@.len() - i,
    {
        let entry = &entries[i];
        if entry.deleted_unix.is_none() && !entry.password.as_str().is_empty() {
            let reasons = weakness_reasons(entry.password.as_str());
            if reasons.len() > 0 {
                findings.push(WeakPasswordFinding { entry, reasons });
            }
        }
        i = i + 1;
    }
    findings
}

/// Members of a group built up to `hi` are entries in `[i, hi)` that reuse
/// entry `i`'s password, in increasing order; every such entry is a member.
proof fn lemma_group_upto(s: Seq<PasswordEntry>, i: int, hi: int)
    requires
        0 <= i,
        hi <= s.len(),
    ensures
        forall|k: int|
            0 <= k < group_upto(s, i, hi).len() ==> i <= #[trigger] group_upto(s, i, hi)[k] < hi && reuses(
                s,
                i,
                group_upto(s, i, hi)[k],
            ),
        forall|m: int| i <= m < hi && reuses(s, i, m) ==> group_upto(s, i, hi).contains(m),
    decreases hi - i,
{
    if hi > i {
        lemma_group_upto(s, i, hi - 1);
        let g = group_upto(s, i, hi - 1);
        if reuses(s, i, hi - 1) {
            assert forall|m: int| i <= m < hi && reuses(s, i, m) implies group_upto(s, i, hi).contains(m) by {
                if m < hi - 1 {
                    let k = choose|k: int| 0 <= k < g.len() && g[k] == m;
                    assert(group_upto(s, i, hi)[k] == m);
                } else {
                    assert(group_upto(s, i, hi)[g.len() as int] == m);
                }
            }
        }
    }
}

/// A group lists its members in increasing order, starting with the entry
/// that leads it.
proof fn lemma_group_sorted(s: Seq<PasswordEntry>, i: int, hi: int)
    requires
        0 <= i,
        hi <= s.len(),
    ensures
        forall|a: int, b: int|
            0 <= a < b < group_upto(s, i, hi).len() ==> #[trigger] group_upto(s, i, hi)[a] < #[trigger] group_upto(
                s,
                i,
                hi,
            )[b],
        i < hi && checked(s[i]) ==> group_upto(s, i, hi).len() > 0 && group_upto(s, i, hi)[0] == i,
    decreases hi - i,
{
    if hi > i {
        lemma_group_sorted(s, i, hi - 1);
        lemma_group_upto(s, i, hi - 1);
        let g = group_upto(s, i, hi - 1);
        if reuses(s, i, hi - 1) {
            assert forall|a: int, b: int|
                0 <= a < b < group_upto(s, i, hi).len() implies #[trigger] group_upto(s, i, hi)[a]
                < #[trigger] group_upto(s, i, hi)[b] by {
                if b < g.len() {
                    assert(group_upto(s, i, hi)[a] == g[a]);
                    assert(group_upto(s, i, hi)[b] == g[b]);
                } else {
                    assert(group_upto(s, i, hi)[a] == g[a]);
                }
            }
            if hi - 1 > i && checked(s[i]) {
                assert(group_upto(s, i, hi)[0] == g[0]);
            }
        }
    }
}

/// The groups built up to `hi` are each led by their first member, an entry
/// before `hi`, and come in increasing order of that first member.
proof fn lemma_groups_ordered(s: Seq<PasswordEntry>, hi: int)
    requires
        hi <= s.len(),
    ensures
        forall|g: int|
            0 <= g < groups_upto(s, hi).len() ==> {
                let grp = #[trigger] groups_upto(s, hi)[g];
                &&& grp.len() > 1
                &&& 0 <= grp[0] < hi
                &&& leads_group(s, grp[0])
                &&& grp == reuse_group(s, grp[0])
            },
        forall|g1: int, g2: int|
            0 <= g1 < g2 < groups_upto(s, hi).len() ==> #[trigger] groups_upto(s, hi)[g1][0]
                < #[trigger] groups_upto(s, hi)[g2][0],
    decreases hi,
{
    if hi > 0 {
        lemma_groups_ordered(s, hi - 1);
        let gs = groups_upto(s, hi - 1);
        let l = hi - 1;
        if leads_group(s, l) && reuse_group(s, l).len() > 1 {
            lemma_group_sorted(s, l, s.len() as int);
            assert(reuse_group(s, l)[0] == l);
            assert forall|g: int| 0 <= g < groups_upto(s, hi).len() implies {
                let grp = #[trigger] groups_upto(s, hi)[g];
                &&& grp.len() > 1
                &&& 0 <= grp[0] < hi
                &&& leads_group(s, grp[0])
                &&& grp == reuse_group(s, grp[0])
            } by {
                if g < gs.len() {
                    assert(groups_upto(s, hi)[g] == gs[g]);
                }
            }
            assert forall|g1: int, g2: int|
                0 <= g1 < g2 < groups_upto(s, hi).len() implies #[trigger] groups_upto(s, hi)[g1][0]
                < #[trigger] groups_upto(s, hi)[g2][0] by {
                assert(groups_upto(s, hi)[g1] == gs[g1]);
                if g2 < gs.len() {
                    assert(groups_upto(s, hi)[g2] == gs[g2]);
                }
            }
        }
    }
}

/// Reuse groups are well formed: each lists its members in the order of the
/// entry list, the groups come in the order of their first entries, no entry
/// is in two groups, and so each shared password has exactly one group.
pub proof fn lemma_reuse_groups_ordered_and_disjoint(s: Seq<PasswordEntry>)
    ensures
        forall|g: int, a: int, b: int|
            0 <= g < reuse_groups(s).len() && 0 <= a < b < reuse_groups(s)[g].len() ==> #[trigger] reuse_groups(
                s,
            )[g][a] < #[trigger] reuse_groups(s)[g][b],
        forall|g1: int, g2: int|
            0 <= g1 < g2 < reuse_groups(s).len() ==> #[trigger] reuse_groups(s)[g1][0] < #[trigger] reuse_groups(
                s,
            )[g2][0],
        forall|g1: int, g2: int, a: int, b: int|
            0 <= g1 < reuse_groups(s).len() && 0 <= g2 < reuse_groups(s).len() && 0 <= a < reuse_groups(s)[g1].len()
                && 0 <= b < reuse_groups(s)[g2].len() && #[trigger] reuse_groups(s)[g1][a]
                == #[trigger] reuse_groups(s)[g2][b] ==> g1 == g2,
{
    let n = s.len() as int;
    lemma_groups_ordered(s, n);
    assert forall|g: int, a: int, b: int|
        0 <= g < reuse_groups(s).len() && 0 <= a < b < reuse_groups(s)[g].len() implies #[trigger] reuse_groups(
        s,
    )[g][a] < #[trigger] reuse_groups(s)[g][b] by {
        let l = reuse_groups(s)[g][0];
        lemma_group_sorted(s, l, n);
    }
    assert forall|g1: int, g2: int, a: int, b: int|
        0 <= g1 < reuse_groups(s).len() && 0 <= g2 < reuse_groups(s).len() && 0 <= a < reuse_groups(s)[g1].len()
            && 0 <= b < reuse_groups(s)[g2].len() && #[trigger] reuse_groups(s)[g1][a]
            == #[trigger] reuse_groups(s)[g2][b] implies g1 == g2 by {
        let l1 = reuse_groups(s)[g1][0];
        let l2 = reuse_groups(s)[g2][0];
        lemma_group_upto(s, l1, n);
        lemma_group_upto(s, l2, n);
        let m = reuse_groups(s)[g1][a];
        assert(reuses(s, l1, m));
        assert(reuses(s, l2, m));
        if l1 < l2 {
            assert(reuses(s, l2, l1));
        } else if l2 < l1 {
            assert(reuses(s, l1, l2));
        }
        if g1 < g2 {
            assert(l1 < l2);
        } else if g2 < g1 {
            assert(l2 < l1);
        }
    }
}

/// Whether `grp` is the reuse group, of two or more members, of an entry
/// before `hi` that leads it.
pub open spec fn group_led_before(s: Seq<PasswordEntry>, grp: Seq<int>, hi: int) -> bool {
    exists|i: int|
        0 <= i < hi && leads_group(s, i) && grp == #[trigger] reuse_group(s, i) && reuse_group(s, i).len() > 1
}

/// Every group built up to `hi` is the reuse group of an entry before `hi`
/// that leads it and has at least two members; every such group is there.
proof fn lemma_groups_upto(s: Seq<PasswordEntry>, hi: int)
    requires
        hi <= s.len(),
    ensures
        forall|g: int| 0 <= g < groups_upto(s, hi).len() ==> group_led_before(s, #[trigger] groups_upto(s, hi)[g], hi),
        forall|i: int|
            0 <= i < hi && leads_group(s, i) && reuse_group(s, i).len() > 1 ==> groups_upto(s, hi).contains(
                reuse_group(s, i),
            ),
    decreases hi,
{
    if hi > 0 {
        lemma_groups_upto(s, hi - 1);
        let gs = groups_upto(s, hi - 1);
        assert forall|g: int| 0 <= g < groups_upto(s, hi).len() implies group_led_before(
            s,
            #[trigger] groups_upto(s, hi)[g],
            hi,
        ) by {
            if g < gs.len() {
                assert(groups_upto(s, hi)[g] == gs[g]);
                assert(group_led_before(s, gs[g], hi - 1));
                let i = choose|i: int|
                    0 <= i < hi - 1 && leads_group(s, i) && gs[g] == #[trigger] reuse_group(s, i) && reuse_group(
                        s,
                        i,
                    ).len() > 1;
                assert(0 <= i < hi && leads_group(s, i) && groups_upto(s, hi)[g] == reuse_group(s, i));
            } else {
                assert(groups_upto(s, hi)[g] == reuse_group(s, hi - 1));
            }
        }
        assert forall|i: int|
            0 <= i < hi && leads_group(s, i) && reuse_group(s, i).len() > 1 implies groups_upto(s, hi).contains(
            reuse_group(s, i),
        ) by {
            if i < hi - 1 {
                let k = choose|k: int| 0 <= k < gs.len() && gs[k] == reuse_group(s, i);
                assert(groups_upto(s, hi)[k] == reuse_group(s, i));
            } else {
                assert(groups_upto(s, hi)[gs.len() as int] == reuse_group(s, i));
            }
        }
    }
}

/// Reuse groups are real reuse: every group has at least two members, each an
/// active entry with a non-empty password, all with the same password.
pub proof fn lemma_reuse_groups_share_one_password(s: Seq<PasswordEntry>)
    ensures
        forall|g: int| 0 <= g < reuse_groups(s).len() ==> #[trigger] reuse_groups(s)[g].len() >= 2,
        forall|g: int, k: int|
            0 <= g < reuse_groups(s).len() && 0 <= k < reuse_groups(s)[g].len() ==> {
                let m = #[trigger] reuse_groups(s)[g][k];
                &&& 0 <= m < s.len()
                &&& checked(s[m])
                &&& s[m].password@ == s[reuse_groups(s)[g][0]].password@
            },
{
    lemma_groups_upto(s, s.len() as int);
    assert forall|g: int, k: int|
        0 <= g < reuse_groups(s).len() && 0 <= k < reuse_groups(s)[g].len() implies {
        let m = #[trigger] reuse_groups(s)[g][k];
        &&& 0 <= m < s.len()
        &&& checked(s[m])
        &&& s[m].password@ == s[reuse_groups(s)[g][0]].password@
    } by {
        assert(group_led_before(s, groups_upto(s, s.len() as int)[g], s.len() as int));
        let i = choose|i: int|
            0 <= i < s.len() && leads_group(s, i) && groups_upto(s, s.len() as int)[g] == #[trigger] reuse_group(s, i)
                && reuse_group(s, i).len() > 1;
        lemma_group_upto(s, i, s.len() as int);
    }
}

/// Reuse groups are complete: two active entries with the same non-empty
/// password always share a group.
pub proof fn lemma_reuse_is_always_grouped(s: Seq<PasswordEntry>, a: int, b: int)
    requires
        0 <= a < b < s.len(),
        checked(s[a]),
        checked(s[b]),
        s[a].password@ == s[b].password@,
    ensures
        exists|g: int|
            0 <= g < reuse_groups(s).len() && #[trigger] reuse_groups(s)[g].contains(a) && reuse_groups(s)[g].contains(b),
{
    let l = lemma_first_sharer(s, a, 0);
    lemma_group_upto(s, l, s.len() as int);
    assert(reuses(s, l, a) && reuses(s, l, b));
    let grp = reuse_group(s, l);
    assert(grp.contains(a) && grp.contains(b));
    let ka = choose|k: int| 0 <= k < grp.len() && grp[k] == a;
    let kb = choose|k: int| 0 <= k < grp.len() && grp[k] == b;
    assert(ka != kb);
    lemma_groups_upto(s, s.len() as int);
    let g = choose|g: int| 0 <= g < reuse_groups(s).len() && reuse_groups(s)[g] == grp;
    assert(reuse_groups(s)[g].contains(a));
}

/// The first checked entry, at or after `start` and up to `a`, with entry
/// `a`'s password leads a group.
proof fn lemma_first_sharer(s: Seq<PasswordEntry>, a: int, start: int) -> (l: int)
    requires
        0 <= start <= a < s.len(),
        checked(s[a]),
        forall|j: int| 0 <= j < start ==> !reuses(s, a, j),
    ensures
        start <= l <= a,
        leads_group(s, l),
        reuses(s, l, a),
    decreases a - start,
{
    if reuses(s, a, start) {
        assert forall|j: int| 0 <= j < start implies !reuses(s, start, j) by {
            assert(!reuses(s, a, j));
        }
        start
    } else {
        lemma_first_sharer(s, a, start + 1)
    }
}

/// Weak-password findings only ever report active entries with a non-empty
/// password, and always with at least one reason.
pub proof fn lemma_findings_are_checked(s: Seq<PasswordEntry>, hi: int)
    requires
        hi <= s.len(),
    ensures
        forall|f: int|
            0 <= f < weak_upto(s, hi).len() ==> {
                let i = #[trigger] weak_upto(s, hi)[f];
                &&& 0 <= i < hi
                &&& checked(s[i])
                &&& weakness_texts(s[i].password@).len() > 0
            },
    decreases hi,
{
    if hi > 0 {
        lemma_findings_are_checked(s, hi - 1);
        assert forall|f: int| 0 <= f < weak_upto(s, hi).len() implies {
            let i = #[trigger] weak_upto(s, hi)[f];
            &&& 0 <= i < hi
            &&& checked(s[i])
            &&& weakness_texts(s[i].password@).len() > 0
        } by {
            if f < weak_upto(s, hi - 1).len() {
                assert(weak_upto(s, hi)[f] == weak_upto(s, hi - 1)[f]);
            }
        }
    }
}

/// Whatever else is reported, a reason found at one step stays in the list.
proof fn lemma_weakness_kept(p: Seq<char>, r3: Seq<Seq<char>>, t: Seq<char>)
    requires
        r3.contains(t),
        r3 == ({
            let b = encode_utf8(p);
            let r0 = Seq::<Seq<char>>::empty();
            let r1 = if p.len() < 12 { r0.push("Fewer than 12 characters."@) } else { r0 };
            let r2 = if matches_common(b) {
                r1.push("Matches a common password pattern or predictable variation."@)
            } else {
                r1
            };
            if single_repetition(p) {
                r2.push("Repeats the same character throughout."@)
            } else if repeated_pattern(b) {
                r2.push("Built by repeating a short pattern."@)
            } else {
                r2
            }
        }),
    ensures
        weakness_texts(p).contains(t),
{
    let b = encode_utf8(p);
    let r4 = if obvious_sequence(b) {
        r3.push("Contains an obvious ascending or descending sequence."@)
    } else {
        r3
    };
    let j = choose|j: int| 0 <= j < r3.len() && r3[j] == t;
    assert(r4[j] == t);
    let r5 = weakness_texts(p);
    assert(r5[j] == t);
}

/// A password built by repeating a short pattern is reported as such: an
/// ASCII password of six or more characters that is its first `k`
/// characters (two or more, at most half of it) repeated, and is not one
/// character throughout, gets the reason "Built by repeating a short
/// pattern.", and so is weak.
pub proof fn lemma_repeated_pattern_is_reported(p: Seq<char>, k: int)
    requires
        vstd::utf8::is_ascii_chars(p),
        p.len() >= 6,
        2 <= k <= p.len() / 2,
        (p.len() as int) % k == 0,
        forall|i: int| 0 <= i < p.len() ==> #[trigger] p[i] == p[i % k],
        exists|i: int| 0 <= i < p.len() && #[trigger] p[i] != p[0],
    ensures
        weakness_texts(p).contains("Built by repeating a short pattern."@),
        weakness_texts(p).len() > 0,
{
    let b = encode_utf8(p);
    vstd::utf8::is_ascii_chars_encode_utf8(p);
    vstd::utf8::is_ascii_chars_nat_bound(p);
    assert(all_ascii(b)) by {
        assert forall|i: int| 0 <= i < b.len() implies b[i] < 128 by {
            assert(p[i] as u8 == b[i]);
            assert((p[i] as nat) < 128);
        }
    }
    assert(repeats_with(b, k)) by {
        assert forall|i: int| k <= i < b.len() implies #[trigger] b[i] == b[i % k] by {
            assert(p[i] == p[i % k]);
            assert(p[i] as u8 == b[i]);
            assert(p[i % k] as u8 == b[i % k]);
        }
    }
    assert(repeated_pattern(b));
    assert(!single_repetition(p)) by {
        let i = choose|i: int| 0 <= i < p.len() && #[trigger] p[i] != p[0];
    }
    let r0 = Seq::<Seq<char>>::empty();
    let r1 = if p.len() < 12 { r0.push("Fewer than 12 characters."@) } else { r0 };
    let r2 = if matches_common(b) {
        r1.push("Matches a common password pattern or predictable variation."@)
    } else {
        r1
    };
    let r3 = r2.push("Built by repeating a short pattern."@);
    assert(r3[r2.len() as int] == "Built by repeating a short pattern."@);
    lemma_weakness_kept(p, r3, "Built by repeating a short pattern."@);
}

/// A password of two or more copies of one character is reported as such:
/// it gets the reason "Repeats the same character throughout.", and so is
/// weak.
pub proof fn lemma_single_character_is_reported(p: Seq<char>)
    requires
        p.len() >= 2,
        forall|i: int| 0 <= i < p.len() ==> #[trigger] p[i] == p[0],
    ensures
        weakness_texts(p).contains("Repeats the same character throughout."@),
        weakness_texts(p).len() > 0,
{
    let b = encode_utf8(p);
    let r0 = Seq::<Seq<char>>::empty();
    let r1 = if p.len() < 12 { r0.push("Fewer than 12 characters."@) } else { r0 };
    let r2 = if matches_common(b) {
        r1.push("Matches a common password pattern or predictable variation."@)
    } else {
        r1
    };
    let r3 = r2.push("Repeats the same character throughout."@);
    assert(r3[r2.len() as int] == "Repeats the same character throughout."@);
    lemma_weakness_kept(p, r3, "Repeats the same character throughout."@);
}

/// Every active entry with a non-empty password that has a weakness is in
/// the findings, and the findings list no other entries.
pub proof fn lemma_weak_entries_are_found(s: Seq<PasswordEntry>, hi: int, i: int)
    requires
        0 <= i < hi <= s.len(),
    ensures
        weak_upto(s, hi).contains(i) <==> (checked(s[i]) && weakness_texts(s[i].password@).len() > 0),
    decreases hi,
{
    lemma_findings_are_checked(s, hi);
    if i < hi - 1 {
        lemma_weak_entries_are_found(s, hi - 1, i);
        let prev = weak_upto(s, hi - 1);
        if prev.contains(i) {
            let f = choose|f: int| 0 <= f < prev.len() && prev[f] == i;
            assert(weak_upto(s, hi)[f] == i);
        }
        if weak_upto(s, hi).contains(i) {
            let f = choose|f: int| 0 <= f < weak_upto(s, hi).len() && weak_upto(s, hi)[f] == i;
            if f < prev.len() {
                assert(weak_upto(s, hi)[f] == prev[f]);
            }
        }
    } else {
        if checked(s[i]) && weakness_texts(s[i].password@).len() > 0 {
            assert(weak_upto(s, hi)[weak_upto(s, hi - 1).len() as int] == i);
        }
        if weak_upto(s, hi).contains(i) {
            lemma_findings_are_checked(s, hi - 1);
            let f = choose|f: int| 0 <= f < weak_upto(s, hi).len() && weak_upto(s, hi)[f] == i;
            if f < weak_upto(s, hi - 1).len() {
                assert(weak_upto(s, hi)[f] == weak_upto(s, hi - 1)[f]);
            }
        }
    }
}

} // verus!
