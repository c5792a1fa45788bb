//! Text primitives shared by the vault: secure clearing, edits on `String`
//! values, decimal rendering and the small pieces of Unicode the editor needs.
use vstd::prelude::*;
use zeroize::Zeroize;

verus! {

/// Unicode `White_Space` characters, the set `char::is_whitespace` tests.
pub open spec fn is_white_space(c: char) -> bool {
    let u = c as u32;
    ||| (0x09 <= u && u <= 0x0d)
    ||| u == 0x20
    ||| u == 0x85
    ||| u == 0xa0
    ||| u == 0x1680
    ||| (0x2000 <= u && u <= 0x200a)
    ||| u == 0x2028
    ||| u == 0x2029
    ||| u == 0x202f
    ||| u == 0x205f
    ||| u == 0x3000
}

/// Whether `c` has the Unicode `White_Space` property, as
/// `char::is_whitespace` tests it.
pub(crate) fn char_is_whitespace(c: char) -> (b: bool)
    ensures
        b == is_white_space(c),
{
    let u = c as u32;
    (0x09 <= u && u <= 0x0d) || u == 0x20 || u == 0x85 || u == 0xa0 || u == 0x1680 || (0x2000 <= u && u <= 0x200a)
        || u == 0x2028 || u == 0x2029 || u == 0x202f || u == 0x205f || u == 0x3000
}

/// `String::push`: appends one character.
#[verifier::external_body]
pub(crate) fn string_push(s: &mut String, c: char)
    ensures
        final(s)@ == old(s)@.push(c),
{
    s.push(c)
}

/// `String::pop`: removes and returns the last character, if any.
#[verifier::external_body]
pub(crate) fn string_pop(s: &mut String) -> (c: Option<char>)
    ensures
        old(s)@.len() == 0 ==> c is None && final(s)@ == old(s)@,
        old(s)@.len() > 0 ==> c == Some(old(s)@.last()) && final(s)@ == old(s)@.drop_last(),
{
    s.pop()
}

/// `String::clear`: truncates the string to zero length.
#[verifier::external_body]
pub(crate) fn string_clear(s: &mut String)
    ensures
        final(s)@ == Seq::<char>::empty(),
{
    s.clear()
}

/// `Zeroize::zeroize` for `String` (zeroize crate): overwrites the bytes with
/// zeros and leaves the string empty.
#[verifier::external_body]
pub(crate) fn zeroize_string(s: &mut String)
    ensures
        final(s)@ == Seq::<char>::empty(),
{
    s.zeroize()
}

/// `Zeroize::zeroize` for `Vec<u8>` (zeroize crate): overwrites the elements
/// and spare capacity with zeros and leaves the vector empty.
#[verifier::external_body]
pub(crate) fn zeroize_bytes(v: &mut Vec<u8>)
    ensures
        final(v)@ == Seq::<u8>::empty(),
{
    v.zeroize()
}

/// `Zeroize::zeroize` for a byte array (zeroize crate): overwrites every
/// element with zero.
#[verifier::external_body]
pub(crate) fn zeroize_array<const N: usize>(a: &mut [u8; N])
    ensures
        final(a)@.len() == N,
        forall|i: int| 0 <= i < N ==> #[trigger] final(a)@[i] == 0,
{
    a.zeroize()
}

/// The character for a decimal digit.
pub open spec fn digit_char(d: int) -> char {
    (d + 48) as char
}

/// The decimal rendering of a natural number, without leading zeros.
pub open spec fn decimal_text(n: nat) -> Seq<char>
    decreases n,
{
    if n < 10 {
        seq![digit_char(n as int)]
    } else {
        decimal_text(n / 10).push(digit_char((n % 10) as int))
    }
}

/// Appends the decimal rendering of `n` to `s`.
pub fn push_decimal(s: &mut String, n: u64)
    ensures
        final(s)@ == old(s)@ + decimal_text(n as nat),
    decreases n,
{
    if n >= 10 {
        push_decimal(s, n / 10);
    }
    let d: u8 = (n % 10) as u8;
    let c: char = (d + 48) as char;
    string_push(s, c);
    proof {
        assert(c == digit_char((n % 10) as int));
        if n >= 10 {
            assert(decimal_text(n as nat) == decimal_text((n / 10) as nat).push(c));
        } else {
            assert(decimal_text(n as nat) == seq![c]);
        }
    }
}

/// A message made of `prefix`, the decimal rendering of `n`, and `suffix`.
pub fn message_with_number(prefix: &str, n: u64, suffix: &str) -> (m: String)
    ensures
        m@ == prefix@ + decimal_text(n as nat) + suffix@,
{
    let mut m = String::from_str(prefix);
    push_decimal(&mut m, n);
    m.append(suffix);
    m
}

/// A message made of `prefix` followed by `text`.
pub fn message_with_text(prefix: &str, text: &str) -> (m: String)
    ensures
        m@ == prefix@ + text@,
{
    let mut m = String::from_str(prefix);
    m.append(text);
    m
}

/// The characters of `s`, in order.
pub fn chars_of(s: &str) -> (v: Vec<char>)
    ensures
        v@ == s@,
{
    broadcast use vstd::string::group_string_axioms;
    let mut v: Vec<char> = Vec::new();
    for c in it: s.chars()
        invariant
            it.seq() == s@,
            v@ == it.seq().take(it.index() as int),
    {
        v.push(c);
        assert(v@ =~= it.seq().take(it.index() + 1));
    }
    assert(s@.take(s@.len() as int) =~= s@);
    v
}


/// ASCII lowercase of a byte.
pub open spec fn lower(b: u8) -> u8 {
    if 65 <= b <= 90 {
        (b + 32) as u8
    } else {
        b
    }
}

/// Byte sequences equal up to ASCII case.
pub open spec fn eq_ignore_case(a: Seq<u8>, b: Seq<u8>) -> bool {
    a.len() == b.len() && forall|i: int| 0 <= i < a.len() ==> lower(a[i]) == lower(b[i])
}

/// ASCII lowercase of a byte.
pub fn lower_byte(b: u8) -> (r: u8)
    ensures
        r == lower(b),
{
    if 65 <= b && b <= 90 {
        b + 32
    } else {
        b
    }
}

/// Equality of `a[start..start + len]` and `b` up to ASCII case.
pub fn eq_ignore_ascii_case_at(a: &[u8], start: usize, len: usize, b: &[u8]) -> (r: bool)
    requires
        start + len <= a@.len(),
    ensures
        r == eq_ignore_case(a@.subrange(start as int, start + len), b@),
{
    if len != b.len() {
        return false;
    }
    let a_len = a.len();
    let mut i: usize = 0;
    while i < len
        invariant
            i <= len,
            a_len == a@.len(),
            start + len <= a@.len(),
            len == b@.len(),
            forall|k: int| 0 <= k < i ==> lower(a@[start + k]) == lower(b@[k]),
        decreases len - i,
    {
        if lower_byte(a[start + i]) != lower_byte(b[i]) {
            assert(lower(a@.subrange(start as int, start + len)[i as int]) != lower(b@[i as int]));
            return false;
        }
        i = i + 1;
    }
    assert forall|k: int| 0 <= k < len implies lower(a@.subrange(start as int, start + len)[k]) == lower(b@[k]) by {
        assert(a@.subrange(start as int, start + len)[k] == a@[start + k]);
    }
    true
}


/// The length of `s[..end]` once trailing whitespace is dropped.
pub open spec fn trim_whitespace_end(s: Seq<char>, end: int) -> int
    decreases end,
{
    if end > 0 && is_white_space(s[end - 1]) {
        trim_whitespace_end(s, end - 1)
    } else {
        end
    }
}

/// The index of the first non-whitespace character of `s[start..]`, or the
/// length of `s` when there is none.
pub open spec fn trim_whitespace_start(s: Seq<char>, start: int) -> int
    decreases s.len() - start,
{
    if 0 <= start < s.len() && is_white_space(s[start]) {
        trim_whitespace_start(s, start + 1)
    } else {
        start
    }
}

/// `s` without leading and trailing whitespace.
pub open spec fn trimmed(s: Seq<char>) -> Seq<char> {
    let start = trim_whitespace_start(s, 0);
    let end = trim_whitespace_end(s, s.len() as int);
    if start < end {
        s.subrange(start, end)
    } else {
        Seq::empty()
    }
}

/// `str::trim`: the text without leading and trailing Unicode whitespace.
#[verifier::external_body]
pub(crate) fn str_trim(s: &str) -> (t: &str)
    ensures
        t@ == trimmed(s@),
{
    s.trim()
}

/// Whether a character is an ASCII digit.
pub open spec fn is_digit_char(c: char) -> bool {
    '0' <= c <= '9'
}

/// The value of a string of ASCII digits.
pub open spec fn digits_value(d: Seq<char>) -> nat
    decreases d.len(),
{
    if d.len() == 0 {
        0
    } else {
        digits_value(d.drop_last()) * 10 + ((d.last() as int - 48) as nat)
    }
}

/// `s` without one leading `+`.
pub open spec fn unsigned_digits(s: Seq<char>) -> Seq<char> {
    if s.len() > 0 && s[0] == '+' {
        s.drop_first()
    } else {
        s
    }
}

/// Whether every character of `d` is an ASCII digit.
pub open spec fn all_digits(d: Seq<char>) -> bool {
    forall|i: int| 0 <= i < d.len() ==> is_digit_char(#[trigger] d[i])
}

/// `u64::from_str`: an optional `+` followed by one or more ASCII digits
/// whose value fits in 64 bits; anything else is refused.
pub open spec fn parse_u64_text(s: Seq<char>) -> Option<u64> {
    let d = unsigned_digits(s);
    if d.len() == 0 || !all_digits(d) {
        None
    } else if digits_value(d) > u64::MAX {
        None
    } else {
        Some(digits_value(d) as u64)
    }
}

/// A longer run of digits is worth at least as much as its prefix.
proof fn lemma_digits_value_prefix(d: Seq<char>, k: int)
    requires
        0 <= k <= d.len(),
        forall|i: int| 0 <= i < d.len() ==> is_digit_char(#[trigger] d[i]),
    ensures
        digits_value(d.subrange(0, k)) <= digits_value(d),
    decreases d.len(),
{
    if k < d.len() {
        let p = d.drop_last();
        assert forall|i: int| 0 <= i < p.len() implies is_digit_char(#[trigger] p[i]) by {
            assert(p[i] == d[i]);
        }
        lemma_digits_value_prefix(p, k);
        assert(p.subrange(0, k) =~= d.subrange(0, k));
        assert(is_digit_char(d[d.len() - 1]));
    } else {
        assert(d.subrange(0, k) =~= d);
    }
}

/// Parses an optional `+` followed by ASCII digits into a `u64`, as
/// `str::parse::<u64>` does; anything else, and a value above `u64::MAX`,
/// gives `None`.
pub(crate) fn parse_u64(s: &str) -> (v: Option<u64>)
    ensures
        v == parse_u64_text(s@),
{
    let chars = chars_of(s);
    let ghost cs = s@;
    let start: usize = if chars.len() > 0 && chars[0] == '+' {
        1
    } else {
        0
    };
    let ghost d = unsigned_digits(cs);
    assert(d =~= cs.subrange(start as int, cs.len() as int));
    if start == chars.len() {
        return None;
    }
    let mut value: u64 = 0;
    let mut i: usize = start;
    assert(cs.subrange(start as int, start as int) =~= Seq::<char>::empty());
    while i < chars.len()
        invariant
            start <= i <= chars.len(),
            chars@ == cs,
            cs == s@,
            d == unsigned_digits(cs),
            d == cs.subrange(start as int, cs.len() as int),
            d.len() > 0,
            forall|k: int| start <= k < i ==> is_digit_char(#[trigger] cs[k]),
            value == digits_value(cs.subrange(start as int, i as int)),
        decreases chars.len() - i,
    {
        let c = chars[i];
        if c < '0' || c > '9' {
            assert(!is_digit_char(d[i - start]));
            return None;
        }
        let u = c as u32;
        assert(48 <= u <= 57);
        let ghost next = cs.subrange(start as int, i + 1);
        assert(next.drop_last() =~= cs.subrange(start as int, i as int));
        assert(next.last() == c);
        let digit: u64 = (u - 48) as u64;
        let tens = match value.checked_mul(10) {
            Some(t) => t,
            None => {
                proof {
                    if all_digits(d) {
                        lemma_digits_value_prefix(d, i - start + 1);
                        assert(d.subrange(0, i - start + 1) =~= next);
                    }
                }
                return None;
            },
        };
        match tens.checked_add(digit) {
            Some(t) => {
                value = t;
            },
            None => {
                proof {
                    if all_digits(d) {
                        lemma_digits_value_prefix(d, i - start + 1);
                        assert(d.subrange(0, i - start + 1) =~= next);
                    }
                }
                return None;
            },
        }
        i = i + 1;
    }
    proof {
        assert(d =~= cs.subrange(start as int, i as int));
        assert forall|k: int| 0 <= k < d.len() implies is_digit_char(#[trigger] d[k]) by {
            assert(d[k] == cs[k + start]);
        }
    }
    Some(value)
}

} // verus!
