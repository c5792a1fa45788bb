//! Random password generation from the enabled character sets, with
//! rejection sampling so that every alphabet character is equally likely.
use vstd::prelude::*;

use crate::crypto::{fill_random, random_failure};
use crate::text::{string_clear, string_push, zeroize_string};

verus! {

/// Shortest password the generator produces.
pub const MIN_PASSWORD_LENGTH: usize = 8;

/// Longest password the generator produces.
pub const MAX_PASSWORD_LENGTH: usize = 128;

/// Length of a freshly configured generator.
pub const DEFAULT_PASSWORD_LENGTH: usize = 20;

/// The character sets a password can draw from.
#[derive(Clone, Copy, Debug, PartialEq, Eq)]
pub enum CharacterSet {
    Lowercase,
    Uppercase,
    Digits,
    Symbols,
}

/// Generator settings and the last generated password.
pub struct PasswordGenerator {
    length: usize,
    lowercase: bool,
    uppercase: bool,
    digits: bool,
    symbols: bool,
    password: String,
}

/// The abstract state of a generator.
pub struct GeneratorView {
    pub length: nat,
    pub lowercase: bool,
    pub uppercase: bool,
    pub digits: bool,
    pub symbols: bool,
    pub password: Seq<char>,
}

impl View for PasswordGenerator {
    type V = GeneratorView;

    closed spec fn view(&self) -> GeneratorView {
        GeneratorView {
            length: self.length as nat,
            lowercase: self.lowercase,
            uppercase: self.uppercase,
            digits: self.digits,
            symbols: self.symbols,
            password: self.password@,
        }
    }
}

/// `a` to `z`.
pub open spec fn lowercase_set() -> Seq<u8> {
    Seq::new(26, |i: int| (97 + i) as u8)
}

/// `A` to `Z`.
pub open spec fn uppercase_set() -> Seq<u8> {
    Seq::new(26, |i: int| (65 + i) as u8)
}

/// `0` to `9`.
pub open spec fn digit_set() -> Seq<u8> {
    Seq::new(10, |i: int| (48 + i) as u8)
}

/// The symbols `!@#$%^&*()-_=+[]{};:,.?/~`.
pub open spec fn symbol_set() -> Seq<u8> {
    seq![33u8, 64u8, 35u8, 36u8, 37u8, 94u8, 38u8, 42u8, 40u8, 41u8, 45u8, 95u8, 61u8, 43u8, 91u8, 93u8, 123u8, 125u8, 59u8, 58u8, 44u8, 46u8, 63u8, 47u8, 126u8]
}

/// The alphabet of the enabled sets: lowercase, uppercase, digits, symbols,
/// in that order.
pub open spec fn alphabet_of(g: GeneratorView) -> Seq<u8> {
    (if g.lowercase { lowercase_set() } else { Seq::empty() }) + (if g.uppercase {
        uppercase_set()
    } else {
        Seq::empty()
    }) + (if g.digits { digit_set() } else { Seq::empty() }) + (if g.symbols { symbol_set() } else { Seq::empty() })
}

/// Whether a set is enabled.
pub open spec fn enabled(g: GeneratorView, set: CharacterSet) -> bool {
    match set {
        CharacterSet::Lowercase => g.lowercase,
        CharacterSet::Uppercase => g.uppercase,
        CharacterSet::Digits => g.digits,
        CharacterSet::Symbols => g.symbols,
    }
}

/// How many sets are enabled.
pub open spec fn enabled_count(g: GeneratorView) -> nat {
    (if g.lowercase { 1nat } else { 0nat }) + (if g.uppercase { 1nat } else { 0nat }) + (if g.digits {
        1nat
    } else {
        0nat
    }) + (if g.symbols { 1nat } else { 0nat })
}

/// The settings after flipping one set.
pub open spec fn toggled(g: GeneratorView, set: CharacterSet) -> GeneratorView {
    match set {
        CharacterSet::Lowercase => GeneratorView { lowercase: !g.lowercase, ..g },
        CharacterSet::Uppercase => GeneratorView { uppercase: !g.uppercase, ..g },
        CharacterSet::Digits => GeneratorView { digits: !g.digits, ..g },
        CharacterSet::Symbols => GeneratorView { symbols: !g.symbols, ..g },
    }
}

/// Whether every character of `p` is a byte of `alphabet`.
pub open spec fn drawn_from(p: Seq<char>, alphabet: Seq<u8>) -> bool {
    forall|i: int| 0 <= i < p.len() ==> exists|j: int| 0 <= j < alphabet.len() && #[trigger] p[i] == (alphabet[j] as char)
}

/// The index a random byte selects in an alphabet of `alphabet_len`
/// characters, or `None` when the byte is rejected: bytes at or above the
/// largest multiple of the length that fits in 256 are rejected, so every
/// index is selected by the same number of byte values.
pub open spec fn sample_index(byte: u8, alphabet_len: int) -> Option<int> {
    if alphabet_len <= 0 || alphabet_len > 256 {
        None
    } else if (byte as int) < 256int - 256int % alphabet_len {
        Some((byte as int) % alphabet_len)
    } else {
        None
    }
}

/// Maps a random byte to an alphabet index by rejection sampling.
pub fn rejection_sample_index(byte: u8, alphabet_len: usize) -> (r: Option<usize>)
    ensures
        match r {
            Some(i) => sample_index(byte, alphabet_len as int) == Some(i as int),
            None => sample_index(byte, alphabet_len as int) is None,
        },
{
    if alphabet_len == 0 || alphabet_len > 256 {
        return None;
    }
    let acceptance_limit: usize = 256 - (256 % alphabet_len);
    let value: usize = byte as usize;
    if value < acceptance_limit {
        Some(value % alphabet_len)
    } else {
        None
    }
}

/// Rejection sampling is uniform: for an alphabet of 1 to 256 characters, a
/// byte selects index `i` exactly when it is `i` plus a multiple `k` of the
/// length with `k < 256 / len`. Every index is therefore selected by exactly
/// `256 / len` of the 256 byte values, and every other byte is rejected.
pub proof fn lemma_rejection_sampling_is_uniform(byte: u8, alphabet_len: int, i: int)
    requires
        1 <= alphabet_len <= 256,
        0 <= i < alphabet_len,
    ensures
        sample_index(byte, alphabet_len) == Some(i) <==> ((byte as int) % alphabet_len == i && (byte as int)
            / alphabet_len < 256int / alphabet_len),
{
    let len = alphabet_len;
    let b = byte as int;
    let q: int = 256int / len;
    assert(256int - 256int % len == len * q) by (nonlinear_arith)
        requires
            1 <= len,
            q == 256int / len,
    ;
    assert((b < len * q) <==> (b / len < q)) by (nonlinear_arith)
        requires
            1 <= len,
            0 <= b,
            0 <= q,
    ;
}

/// The characters that rejection sampling draws from `bytes`, in order: each
/// accepted byte selects its alphabet character and each rejected byte is
/// skipped.
pub open spec fn sampled(bytes: Seq<u8>, alphabet: Seq<u8>) -> Seq<char>
    decreases bytes.len(),
{
    if bytes.len() == 0 {
        Seq::empty()
    } else {
        sampled(bytes.drop_last(), alphabet) + match sample_index(bytes.last(), alphabet.len() as int) {
            Some(i) => seq![alphabet[i] as char],
            None => Seq::<char>::empty(),
        }
    }
}

/// `s` cut to at most `n` characters.
pub open spec fn at_most(s: Seq<char>, n: int) -> Seq<char> {
    if s.len() <= n {
        s
    } else {
        s.take(n)
    }
}

/// Whether `password` is what generating `length` characters yields when the
/// random source gave `drawn`, in 64-byte blocks: the first `length` sampled
/// characters, where the last block is the first one that completed the
/// password.
pub open spec fn generated_from(drawn: Seq<u8>, alphabet: Seq<u8>, length: nat, password: Seq<char>) -> bool {
    &&& drawn.len() % 64 == 0
    &&& sampled(drawn, alphabet).len() >= length
    &&& password == sampled(drawn, alphabet).take(length as int)
    &&& drawn.len() > 0 ==> sampled(drawn.subrange(0, drawn.len() - 64), alphabet).len() < length
}

/// What a successful generation with settings `g` yields: a password of the
/// configured length, made of alphabet characters, that is the sampling of
/// some sequence of random blocks as `generated_from` describes.
pub open spec fn generation_result(g: GeneratorView, password: Seq<char>) -> bool {
    &&& exists|drawn: Seq<u8>| #[trigger] generated_from(drawn, alphabet_of(g), g.length, password)
    &&& password.len() == g.length
    &&& drawn_from(password, alphabet_of(g))
}

/// Sampling two byte strings one after the other gives the characters of the
/// first followed by those of the second.
pub proof fn lemma_sampled_concat(x: Seq<u8>, y: Seq<u8>, alphabet: Seq<u8>)
    ensures
        sampled(x + y, alphabet) == sampled(x, alphabet) + sampled(y, alphabet),
    decreases y.len(),
{
    if y.len() == 0 {
        assert(x + y =~= x);
        assert(sampled(x, alphabet) + sampled(y, alphabet) =~= sampled(x, alphabet));
    } else {
        lemma_sampled_concat(x, y.drop_last(), alphabet);
        assert((x + y).drop_last() =~= x + y.drop_last());
        assert((x + y).last() == y.last());
        let tail = match sample_index(y.last(), alphabet.len() as int) {
            Some(i) => seq![alphabet[i] as char],
            None => Seq::<char>::empty(),
        };
        assert(sampled(x, alphabet) + sampled(y.drop_last(), alphabet) + tail =~= sampled(x, alphabet) + (sampled(
            y.drop_last(),
            alphabet,
        ) + tail));
    }
}

/// Appends to `password` the characters that rejection sampling draws from
/// one block of random bytes, in order, stopping once the password holds
/// `target` characters.
pub fn append_sampled(password: &mut String, alphabet: &Vec<u8>, random: &[u8; 64], target: usize)
    requires
        old(password)@.len() <= target,
    ensures
        final(password)@ == at_most(old(password)@ + sampled(random@, alphabet@), target as int),
        drawn_from(old(password)@, alphabet@) ==> drawn_from(final(password)@, alphabet@),
{
    let ghost start = password@;
    let mut produced: usize = password.as_str().unicode_len();
    let mut k: usize = 0;
    while k < 64 && produced < target
        invariant
            k <= 64,
            produced == password@.len(),
            produced <= target,
            password@ == start + sampled(random@.take(k as int), alphabet@),
            start.len() <= target,
            drawn_from(start, alphabet@) ==> drawn_from(password@, alphabet@),
        decreases 64 - k,
    {
        proof {
            assert(random@.take(k + 1).drop_last() =~= random@.take(k as int));
            assert(random@.take(k + 1).last() == random@[k as int]);
        }
        match rejection_sample_index(random[k], alphabet.len()) {
            None => {
                assert(password@ =~= start + sampled(random@.take(k + 1), alphabet@));
            },
            Some(index) => {
                let ghost before = password@;
                string_push(password, alphabet[index] as char);
                produced = produced + 1;
                proof {
                    if drawn_from(start, alphabet@) {
                        assert forall|i: int| 0 <= i < password@.len() implies exists|j: int|
                            0 <= j < alphabet@.len() && #[trigger] password@[i] == (alphabet@[j] as char) by {
                            if i < before.len() {
                                assert(password@[i] == before[i]);
                            } else {
                                assert(password@[i] == (alphabet@[index as int] as char));
                            }
                        }
                    }
                }
                assert(password@ =~= start + sampled(random@.take(k + 1), alphabet@));
            },
        }
        k = k + 1;
    }
    proof {
        let whole = start + sampled(random@, alphabet@);
        assert(random@ =~= random@.take(k as int) + random@.skip(k as int));
        lemma_sampled_concat(random@.take(k as int), random@.skip(k as int), alphabet@);
        assert(whole =~= password@ + sampled(random@.skip(k as int), alphabet@));
        if k == 64 {
            assert(random@.take(64) =~= random@);
            assert(random@.skip(64) =~= Seq::<u8>::empty());
            assert(sampled(random@.skip(64), alphabet@) =~= Seq::<char>::empty());
            assert(whole =~= password@);
        } else {
            assert(whole.take(target as int) =~= password@);
        }
    }
}

impl PasswordGenerator {
    /// A generator for 20-character passwords from all four sets, with no
    /// password yet.
    pub fn new() -> (g: PasswordGenerator)
        ensures
            g@.length == DEFAULT_PASSWORD_LENGTH,
            g@.lowercase && g@.uppercase && g@.digits && g@.symbols,
            g@.password.len() == 0,
    {
        PasswordGenerator {
            length: DEFAULT_PASSWORD_LENGTH,
            lowercase: true,
            uppercase: true,
            digits: true,
            symbols: true,
            password: String::new(),
        }
    }

    /// The configured password length.
    pub fn length(&self) -> (n: usize)
        ensures
            n == self@.length,
    {
        self.length
    }

    /// The last generated password (empty when none or after clearing).
    pub fn password(&self) -> (p: &str)
        ensures
            p@ == self@.password,
    {
        self.password.as_str()
    }

    /// Whether lowercase letters are enabled.
    pub fn lowercase_enabled(&self) -> (b: bool)
        ensures
            b == self@.lowercase,
    {
        self.lowercase
    }

    /// Whether uppercase letters are enabled.
    pub fn uppercase_enabled(&self) -> (b: bool)
        ensures
            b == self@.uppercase,
    {
        self.uppercase
    }

    /// Whether digits are enabled.
    pub fn digits_enabled(&self) -> (b: bool)
        ensures
            b == self@.digits,
    {
        self.digits
    }

    /// Whether symbols are enabled.
    pub fn symbols_enabled(&self) -> (b: bool)
        ensures
            b == self@.symbols,
    {
        self.symbols
    }

    /// How many characters the enabled sets hold together.
    pub fn alphabet_len(&self) -> (n: usize)
        ensures
            n == alphabet_of(self@).len(),
    {
        let mut length: usize = 0;
        if self.lowercase {
            length = length + 26;
        }
        if self.uppercase {
            length = length + 26;
        }
        if self.digits {
            length = length + 10;
        }
        if self.symbols {
            length = length + 25;
        }
        length
    }

    /// Lengthens the password by one, up to 128; reports whether it changed.
    pub fn increase_length(&mut self) -> (changed: bool)
        ensures
            changed == (old(self)@.length < MAX_PASSWORD_LENGTH),
            final(self)@ == (GeneratorView {
                length: if changed { old(self)@.length + 1 } else { old(self)@.length },
                ..old(self)@
            }),
    {
        if self.length >= MAX_PASSWORD_LENGTH {
            return false;
        }
        self.length = self.length + 1;
        true
    }

    /// Shortens the password by one, down to 8; reports whether it changed.
    pub fn decrease_length(&mut self) -> (changed: bool)
        ensures
            changed == (old(self)@.length > MIN_PASSWORD_LENGTH),
            final(self)@ == (GeneratorView {
                length: if changed { (old(self)@.length - 1) as nat } else { old(self)@.length },
                ..old(self)@
            }),
    {
        if self.length <= MIN_PASSWORD_LENGTH {
            return false;
        }
        self.length = self.length - 1;
        true
    }

    /// Whether a set is enabled.
    pub fn set_enabled(&self, set: CharacterSet) -> (b: bool)
        ensures
            b == enabled(self@, set),
    {
        match set {
            CharacterSet::Lowercase => self.lowercase,
            CharacterSet::Uppercase => self.uppercase,
            CharacterSet::Digits => self.digits,
            CharacterSet::Symbols => self.symbols,
        }
    }

    /// How many sets are enabled.
    pub fn enabled_set_count(&self) -> (n: usize)
        ensures
            n == enabled_count(self@),
    {
        let mut n: usize = 0;
        if self.lowercase {
            n = n + 1;
        }
        if self.uppercase {
            n = n + 1;
        }
        if self.digits {
            n = n + 1;
        }
        if self.symbols {
            n = n + 1;
        }
        n
    }

    /// Enables or disables a set. Disabling the last enabled set is refused,
    /// so at least one set always stays enabled.
    pub fn toggle(&mut self, set: CharacterSet) -> (res: Result<(), String>)
        ensures
            (enabled(old(self)@, set) && enabled_count(old(self)@) == 1) ==> (res matches Err(e) && e@
                == "At least one password character set must remain enabled."@ && final(self)@ == old(self)@),
            !(enabled(old(self)@, set) && enabled_count(old(self)@) == 1) ==> (res is Ok && final(self)@ == toggled(
                old(self)@,
                set,
            )),
    {
        if self.set_enabled(set) && self.enabled_set_count() == 1 {
            return Err(String::from_str("At least one password character set must remain enabled."));
        }
        match set {
            CharacterSet::Lowercase => self.lowercase = !self.lowercase,
            CharacterSet::Uppercase => self.uppercase = !self.uppercase,
            CharacterSet::Digits => self.digits = !self.digits,
            CharacterSet::Symbols => self.symbols = !self.symbols,
        }
        Ok(())
    }

    /// The characters of the enabled sets: lowercase, uppercase, digits,
    /// symbols, in that order.
    pub fn alphabet(&self) -> (a: Vec<u8>)
        ensures
            a@ == alphabet_of(self@),
    {
        let mut alphabet: Vec<u8> = Vec::new();
        if self.lowercase {
            push_range(&mut alphabet, 97, 26);
            assert(Seq::new(26, |i: int| (97 + i) as u8) =~= lowercase_set());
        }
        if self.uppercase {
            push_range(&mut alphabet, 65, 26);
            assert(Seq::new(26, |i: int| (65 + i) as u8) =~= uppercase_set());
        }
        if self.digits {
            push_range(&mut alphabet, 48, 10);
            assert(Seq::new(10, |i: int| (48 + i) as u8) =~= digit_set());
        }
        if self.symbols {
            // The ASCII codes of `!@#$%^&*()-_=+[]{};:,.?/~`.
            let symbols: [u8; 25] = [
                33, 64, 35, 36, 37, 94, 38, 42, 40, 41, 45, 95, 61, 43, 91, 93, 123, 125, 59, 58, 44, 46, 63, 47, 126,
            ];
            assert(symbols@ =~= symbol_set());
            let mut k: usize = 0;
            let ghost before = alphabet@;
            while k < 25
                invariant
                    k <= 25,
                    symbols@ == symbol_set(),
                    alphabet@ == before + symbols@.subrange(0, k as int),
                decreases 25 - k,
            {
                alphabet.push(symbols[k]);
                k = k + 1;
                assert(alphabet@ =~= before + symbols@.subrange(0, k as int));
            }
            assert(symbols@.subrange(0, 25) =~= symbols@);
        }
        assert(alphabet@ =~= alphabet_of(self@));
        alphabet
    }

    /// Wipes the generated password.
    pub fn clear_password(&mut self)
        ensures
            final(self)@ == (GeneratorView { password: Seq::empty(), ..old(self)@ }),
    {
        zeroize_string(&mut self.password);
        string_clear(&mut self.password);
    }

    /// Generates a new password of the configured length from the enabled
    /// sets, drawing 64 random bytes at a time and keeping those that
    /// rejection sampling accepts, until the password is complete. With no set
    /// enabled, nothing changes and an error is returned; when the random
    /// source fails, the password is left empty.
    pub fn regenerate(&mut self) -> (res: Result<(), String>)
        ensures
            final(self)@.length == old(self)@.length,
            alphabet_of(final(self)@) == alphabet_of(old(self)@),
            enabled_count(final(self)@) == enabled_count(old(self)@),
            alphabet_of(old(self)@).len() == 0 ==> (res matches Err(e) && e@ == "No password character sets are enabled."@
                && final(self)@ == old(self)@),
            alphabet_of(old(self)@).len() > 0 ==> match res {
                Ok(()) => generation_result(old(self)@, final(self)@.password),
                Err(e) => {
                    &&& final(self)@.password.len() == 0
                    &&& (e@.len() >= 28 && e@.subrange(0, 28) == "OS random generator failed: "@)
                },
            },
            final(self)@.lowercase == old(self)@.lowercase,
            final(self)@.uppercase == old(self)@.uppercase,
            final(self)@.digits == old(self)@.digits,
            final(self)@.symbols == old(self)@.symbols,
    {
        let alphabet = self.alphabet();
        if alphabet.len() == 0 {
            return Err(String::from_str("No password character sets are enabled."));
        }
        self.clear_password();
        let target = self.length;
        let ghost a = alphabet@;
        let ghost mut drawn: Seq<u8> = Seq::empty();
        let mut produced: usize = 0;
        let mut rounds: u64 = 0;
        assert(sampled(drawn, a) =~= Seq::<char>::empty());
        assert(self@.password =~= at_most(sampled(drawn, a), target as int));
        while produced < target
            invariant
                alphabet@ == a,
                a == alphabet_of(self@),
                0 < a.len() <= 87,
                target == self@.length,
                produced == self@.password.len(),
                produced <= target,
                drawn.len() % 64 == 0,
                self@.password == at_most(sampled(drawn, a), target as int),
                drawn_from(self@.password, a),
                drawn.len() > 0 ==> sampled(drawn.subrange(0, drawn.len() - 64), a).len() < target,
                self@.length == old(self)@.length,
                self@.lowercase == old(self)@.lowercase,
                self@.uppercase == old(self)@.uppercase,
                self@.digits == old(self)@.digits,
                self@.symbols == old(self)@.symbols,
            decreases u64::MAX - rounds,
        {
            if rounds == u64::MAX {
                self.clear_password();
                let message = String::from_str("OS random generator failed: no accepted random bytes");
                proof {
                    reveal_strlit("OS random generator failed: no accepted random bytes");
                    reveal_strlit("OS random generator failed: ");
                    assert(message@.subrange(0, 28) =~= "OS random generator failed: "@);
                }
                return Err(message);
            }
            rounds = rounds + 1;
            let mut random = [0_u8; 64];
            match fill_random(&mut random) {
                Ok(()) => {},
                Err(error) => {
                    self.clear_password();
                    return Err(random_failure(&error));
                },
            }
            let ghost before = sampled(drawn, a);
            proof {
                lemma_sampled_concat(drawn, random@, a);
                assert(before.len() < target);
            }
            append_sampled(&mut self.password, &alphabet, &random, target);
            proof {
                let old_drawn = drawn;
                drawn = drawn + random@;
                assert(drawn.subrange(0, drawn.len() - 64) =~= old_drawn);
            }
            produced = self.password.as_str().unicode_len();
        }
        proof {
            let s = sampled(drawn, a);
            if s.len() <= target {
                assert(s.take(target as int) =~= s);
            }
            assert(generated_from(drawn, alphabet_of(old(self)@), old(self)@.length, self@.password));
        }
        Ok(())
    }
}

/// Appends `count` consecutive byte values starting at `first`.
fn push_range(v: &mut Vec<u8>, first: u8, count: u8)
    requires
        first as int + count as int <= 256,
    ensures
        final(v)@ == old(v)@ + Seq::new(count as nat, |i: int| (first + i) as u8),
{
    let mut k: u8 = 0;
    while k < count
        invariant
            k <= count,
            first as int + count as int <= 256,
            v@ == old(v)@ + Seq::new(k as nat, |i: int| (first + i) as u8),
        decreases count - k,
    {
        v.push(first + k);
        k = k + 1;
        assert(v@ =~= old(v)@ + Seq::new(k as nat, |i: int| (first + i) as u8));
    }
}

/// Settings the generator accepts: a length from 8 to 128 and at least one
/// enabled set.
pub open spec fn settings_valid(g: GeneratorView) -> bool {
    MIN_PASSWORD_LENGTH <= g.length <= MAX_PASSWORD_LENGTH && enabled_count(g) >= 1
}

/// The settings stay valid whatever the user changes: lengthening and
/// shortening stop at the bounds, and a toggle that is carried out never
/// disables the last set. With valid settings the alphabet is never empty,
/// so generating never fails for want of characters.
pub proof fn lemma_settings_stay_valid(g: GeneratorView, set: CharacterSet)
    requires
        settings_valid(g),
    ensures
        settings_valid(
            GeneratorView {
                length: if g.length < MAX_PASSWORD_LENGTH {
                    g.length + 1
                } else {
                    g.length
                },
                ..g
            },
        ),
        settings_valid(
            GeneratorView {
                length: if g.length > MIN_PASSWORD_LENGTH {
                    (g.length - 1) as nat
                } else {
                    g.length
                },
                ..g
            },
        ),
        !(enabled(g, set) && enabled_count(g) == 1) ==> settings_valid(toggled(g, set)),
        alphabet_of(g).len() > 0,
{
}

/// Whether `b` is one of the 25 symbols `!@#$%^&*()-_=+[]{};:,.?/~`.
pub open spec fn is_generator_symbol(b: u8) -> bool {
    b == 33 || b == 64 || b == 35 || b == 36 || b == 37 || b == 94 || b == 38 || b == 42 || b == 40 || b == 41
        || b == 45 || b == 95 || b == 61 || b == 43 || b == 91 || b == 93 || b == 123 || b == 125 || b == 59 || b
        == 58 || b == 44 || b == 46 || b == 63 || b == 47 || b == 126
}

/// A run of consecutive byte values holds exactly the bytes in its range,
/// each once.
proof fn lemma_byte_run(r: Seq<u8>, first: int, n: int)
    requires
        0 <= first,
        0 <= n,
        first + n <= 256,
        r.len() == n,
        forall|i: int| 0 <= i < n ==> #[trigger] r[i] == first + i,
    ensures
        forall|b: u8| #[trigger] r.contains(b) <==> first <= b < first + n,
        r.no_duplicates(),
{
    assert forall|b: u8| #[trigger] r.contains(b) <==> first <= b < first + n by {
        if first <= b < first + n {
            assert(r[b - first] == b);
        }
    }
}

/// The symbol set holds exactly the 25 listed symbols, each once.
proof fn lemma_symbol_set()
    ensures
        forall|b: u8| #[trigger] symbol_set().contains(b) <==> is_generator_symbol(b),
        symbol_set().no_duplicates(),
        symbol_set().len() == 25,
{
    let s = symbol_set();
    assert forall|b: u8| #[trigger] s.contains(b) <==> is_generator_symbol(b) by {
        if is_generator_symbol(b) {
            if b == 33 { assert(s[0] == b); }
            else if b == 64 { assert(s[1] == b); }
            else if b == 35 { assert(s[2] == b); }
            else if b == 36 { assert(s[3] == b); }
            else if b == 37 { assert(s[4] == b); }
            else if b == 94 { assert(s[5] == b); }
            else if b == 38 { assert(s[6] == b); }
            else if b == 42 { assert(s[7] == b); }
            else if b == 40 { assert(s[8] == b); }
            else if b == 41 { assert(s[9] == b); }
            else if b == 45 { assert(s[10] == b); }
            else if b == 95 { assert(s[11] == b); }
            else if b == 61 { assert(s[12] == b); }
            else if b == 43 { assert(s[13] == b); }
            else if b == 91 { assert(s[14] == b); }
            else if b == 93 { assert(s[15] == b); }
            else if b == 123 { assert(s[16] == b); }
            else if b == 125 { assert(s[17] == b); }
            else if b == 59 { assert(s[18] == b); }
            else if b == 58 { assert(s[19] == b); }
            else if b == 44 { assert(s[20] == b); }
            else if b == 46 { assert(s[21] == b); }
            else if b == 63 { assert(s[22] == b); }
            else if b == 47 { assert(s[23] == b); }
            else { assert(s[24] == b); }
        }
    }
    assert forall|i: int, j: int| 0 <= i < s.len() && 0 <= j < s.len() && i != j implies s[i] != s[j] by {
        assert(0 <= i < 25 && 0 <= j < 25);
    }
}

/// The alphabet holds exactly the characters of the enabled sets, each once:
/// `a` to `z` when lowercase is on, `A` to `Z` when uppercase is on, `0` to
/// `9` when digits are on and the 25 symbols when symbols are on. So every
/// generated character comes from an enabled set, and every character of an
/// enabled set can be generated, with equal chance.
pub proof fn lemma_alphabet_contents(g: GeneratorView)
    ensures
        forall|b: u8|
            #[trigger] alphabet_of(g).contains(b) <==> {
                ||| g.lowercase && 97 <= b <= 122
                ||| g.uppercase && 65 <= b <= 90
                ||| g.digits && 48 <= b <= 57
                ||| g.symbols && is_generator_symbol(b)
            },
        alphabet_of(g).no_duplicates(),
        alphabet_of(g).len() == (if g.lowercase { 26int } else { 0 }) + (if g.uppercase { 26int } else { 0 }) + (
        if g.digits {
            10int
        } else {
            0
        }) + (if g.symbols { 25int } else { 0 }),
{
    broadcast use vstd::seq_lib::lemma_seq_concat_contains_all_elements;

    lemma_byte_run(lowercase_set(), 97, 26);
    lemma_byte_run(uppercase_set(), 65, 26);
    lemma_byte_run(digit_set(), 48, 10);
    lemma_symbol_set();
    let l = if g.lowercase { lowercase_set() } else { Seq::<u8>::empty() };
    let u = if g.uppercase { uppercase_set() } else { Seq::<u8>::empty() };
    let d = if g.digits { digit_set() } else { Seq::<u8>::empty() };
    let y = if g.symbols { symbol_set() } else { Seq::<u8>::empty() };
    assert(alphabet_of(g) == l + u + d + y);
    assert forall|b: u8| #[trigger] alphabet_of(g).contains(b) <==> {
        ||| g.lowercase && 97 <= b <= 122
        ||| g.uppercase && 65 <= b <= 90
        ||| g.digits && 48 <= b <= 57
        ||| g.symbols && is_generator_symbol(b)
    } by {
        assert(lowercase_set().contains(b) <==> 97 <= b < 123);
        assert(uppercase_set().contains(b) <==> 65 <= b < 91);
        assert(digit_set().contains(b) <==> 48 <= b < 58);
        assert(symbol_set().contains(b) <==> is_generator_symbol(b));
    }
    assert(l.no_duplicates() && u.no_duplicates() && d.no_duplicates() && y.no_duplicates());
    assert forall|i: int, j: int| 0 <= i < l.len() && 0 <= j < u.len() implies l[i] != u[j] by {}
    vstd::seq_lib::lemma_no_dup_in_concat(l, u);
    let lu = l + u;
    assert forall|i: int, j: int| 0 <= i < lu.len() && 0 <= j < d.len() implies lu[i] != d[j] by {
        if i < l.len() {
            assert(lu[i] == l[i]);
        } else {
            assert(lu[i] == u[i - l.len()]);
        }
    }
    vstd::seq_lib::lemma_no_dup_in_concat(lu, d);
    let lud = lu + d;
    assert forall|i: int, j: int| 0 <= i < lud.len() && 0 <= j < y.len() implies lud[i] != y[j] by {
        assert(y.contains(y[j]));
        assert(is_generator_symbol(y[j]));
        if i < lu.len() {
            assert(lud[i] == lu[i]);
            if i < l.len() {
                assert(lu[i] == l[i]);
            } else {
                assert(lu[i] == u[i - l.len()]);
            }
        } else {
            assert(lud[i] == d[i - lu.len()]);
        }
    }
    vstd::seq_lib::lemma_no_dup_in_concat(lud, y);
}

/// With only uppercase letters enabled, the alphabet is `A` to `Z`, in
/// order, and every generated password is made of them.
pub proof fn lemma_uppercase_alphabet(g: GeneratorView)
    requires
        !g.lowercase,
        g.uppercase,
        !g.digits,
        !g.symbols,
    ensures
        alphabet_of(g) == "ABCDEFGHIJKLMNOPQRSTUVWXYZ"@.map_values(|c: char| c as u8),
{
    reveal_strlit("ABCDEFGHIJKLMNOPQRSTUVWXYZ");
    assert(alphabet_of(g) =~= "ABCDEFGHIJKLMNOPQRSTUVWXYZ"@.map_values(|c: char| c as u8));
}

} // verus!
