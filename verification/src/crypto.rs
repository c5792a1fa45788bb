//! Key derivation (Argon2id), authenticated encryption (XChaCha20-Poly1305)
//! and OS randomness for the vault file.
use vstd::prelude::*;
use vstd::utf8::encode_utf8;

use argon2::{Algorithm, Argon2, Params, Version};
use chacha20poly1305::aead::array::Array;
use chacha20poly1305::aead::{Aead, KeyInit, Payload};
use chacha20poly1305::XChaCha20Poly1305;

verus! {

/// Length in bytes of the derived vault key.
pub const KEY_LEN: usize = 32;

/// Length in bytes of the Argon2 salt.
pub const SALT_LEN: usize = 16;

/// Length in bytes of an XChaCha20-Poly1305 nonce.
pub const NONCE_LEN: usize = 24;

/// Length in bytes of the Poly1305 tag that follows the ciphertext.
pub const TAG_LEN: usize = 16;

/// Argon2id cost parameters, stored in the vault header.
#[derive(Debug, Clone, Copy, PartialEq, Eq)]
pub struct KdfConfig {
    pub memory_kib: u32,
    pub iterations: u32,
    pub parallelism: u32,
}

#[verifier::external_type_specification]
#[verifier::external_body]
pub struct ExArgon2Error(argon2::Error);

#[verifier::external_type_specification]
#[verifier::external_body]
pub struct ExAeadError(chacha20poly1305::Error);

#[verifier::external_type_specification]
#[verifier::external_body]
pub struct ExGetrandomError(getrandom::Error);

/// Whether the KDF settings are within BarePass safety limits:
/// 8 MiB to 256 MiB of memory, 1 to 10 iterations, 1 to 16 lanes.
pub open spec fn kdf_valid(kdf: KdfConfig) -> bool {
    &&& 8 * 1024 <= kdf.memory_kib <= 256 * 1024
    &&& 1 <= kdf.iterations <= 10
    &&& 1 <= kdf.parallelism <= 16
}

/// The error a KDF configuration outside the limits is refused with.
pub open spec fn kdf_error_text(kdf: KdfConfig) -> Seq<char> {
    if !(8 * 1024 <= kdf.memory_kib <= 256 * 1024) {
        "vault KDF memory setting is outside BarePass safety limits"@
    } else if !(1 <= kdf.iterations <= 10) {
        "vault KDF iteration setting is outside BarePass safety limits"@
    } else {
        "vault KDF parallelism setting is outside BarePass safety limits"@
    }
}

/// The Argon2id (version 0x13) output of 32 bytes for a password and salt
/// under the given memory, iteration and lane settings.
pub uninterp spec fn argon2id_key(password: Seq<u8>, salt: Seq<u8>, memory_kib: u32, iterations: u32, parallelism: u32) -> Seq<u8>;

/// The XChaCha20-Poly1305 ciphertext, tag appended, of `plaintext` under
/// `key`, `nonce` and associated data `aad`.
pub uninterp spec fn xchacha20poly1305_seal(key: Seq<u8>, nonce: Seq<u8>, plaintext: Seq<u8>, aad: Seq<u8>) -> Seq<u8>;

/// The XChaCha20-Poly1305 decryption of `ciphertext` (tag appended) under
/// `key`, `nonce` and associated data `aad`, or `None` when it does not
/// authenticate.
pub uninterp spec fn xchacha20poly1305_open(key: Seq<u8>, nonce: Seq<u8>, ciphertext: Seq<u8>, aad: Seq<u8>) -> Option<Seq<u8>>;

/// The key derived for a password, salt and KDF configuration.
pub open spec fn derived_key(password: &str, salt: Seq<u8>, kdf: KdfConfig) -> Seq<u8> {
    argon2id_key(encode_utf8(password@), salt, kdf.memory_kib, kdf.iterations, kdf.parallelism)
}

/// The KDF settings new vaults start with: Argon2id with 64 MiB, 3 iterations
/// and 1 lane.
pub fn current_kdf() -> (kdf: KdfConfig)
    ensures
        kdf.memory_kib == 64 * 1024,
        kdf.iterations == 3,
        kdf.parallelism == 1,
        kdf_valid(kdf),
{
    KdfConfig { memory_kib: 64 * 1024, iterations: 3, parallelism: 1 }
}

impl KdfConfig {
    /// Checks the settings against the safety limits, reporting the first
    /// setting (memory, then iterations, then lanes) that is out of range.
    pub fn validate(self) -> (res: Result<(), String>)
        ensures
            res is Ok <==> kdf_valid(self),
            res matches Err(e) ==> e@ == kdf_error_text(self),
    {
        if !(8 * 1024 <= self.memory_kib && self.memory_kib <= 256 * 1024) {
            return Err(String::from_str("vault KDF memory setting is outside BarePass safety limits"));
        }
        if !(1 <= self.iterations && self.iterations <= 10) {
            return Err(String::from_str("vault KDF iteration setting is outside BarePass safety limits"));
        }
        if !(1 <= self.parallelism && self.parallelism <= 16) {
            return Err(String::from_str("vault KDF parallelism setting is outside BarePass safety limits"));
        }
        Ok(())
    }
}

/// Argon2id v0x13 (argon2 crate: `Params::new`, `Argon2::new`,
/// `Argon2::hash_password_into`) with a 32-byte output. Within the safety
/// limits `Params::new` accepts the settings; hashing may still fail (a
/// password over 2^32-1 bytes, or no memory for the blocks), so success is not
/// promised. When it succeeds the key is the Argon2id output for these inputs.
#[verifier::external_body]
fn argon2id_hash(password: &str, salt: &[u8; SALT_LEN], kdf: KdfConfig) -> (res: Result<[u8; KEY_LEN], argon2::Error>)
    requires
        kdf_valid(kdf),
    ensures
        res matches Ok(key) ==> key@ == argon2id_key(encode_utf8(password@), salt@, kdf.memory_kib, kdf.iterations, kdf.parallelism),
{
    let params = Params::new(kdf.memory_kib, kdf.iterations, kdf.parallelism, Some(KEY_LEN))?;
    let argon2 = Argon2::new(Algorithm::Argon2id, Version::V0x13, params);
    let mut key = [0_u8; KEY_LEN];
    argon2.hash_password_into(password.as_bytes(), salt, &mut key)?;
    Ok(key)
}

/// The `Display` text of an argon2 error.
#[verifier::external_body]
fn argon2_error_text(error: &argon2::Error) -> String {
    format!("{error}")
}

/// The `Display` text of a getrandom error.
#[verifier::external_body]
fn getrandom_error_text(error: &getrandom::Error) -> String {
    format!("{error}")
}

/// Derives the vault key from the master password with Argon2id, after
/// checking the KDF settings against the safety limits.
pub fn derive_key(master_password: &str, salt: &[u8; SALT_LEN], kdf: KdfConfig) -> (res: Result<[u8; KEY_LEN], String>)
    ensures
        !kdf_valid(kdf) ==> (res matches Err(e) && e@ == kdf_error_text(kdf)),
        res matches Ok(key) ==> kdf_valid(kdf) && key@ == derived_key(master_password, salt@, kdf),
        kdf_valid(kdf) && res is Err ==> (res matches Err(e) && e@.len() >= 30 && e@.subrange(0, 30)
            == "Argon2 key derivation failed: "@),
{
    match kdf.validate() {
        Err(e) => Err(e),
        Ok(()) => match argon2id_hash(master_password, salt, kdf) {
            Ok(key) => Ok(key),
            Err(error) => {
                let mut message = String::from_str("Argon2 key derivation failed: ");
                let detail = argon2_error_text(&error);
                message.append(detail.as_str());
                proof {
                    reveal_strlit("Argon2 key derivation failed: ");
                    assert(message@.subrange(0, 30) =~= "Argon2 key derivation failed: "@);
                }
                Err(message)
            },
        },
    }
}

/// Fills `buf` from the operating system's random source (`getrandom::fill`).
/// The bytes are random; only the length is known.
#[verifier::external_body]
pub(crate) fn fill_random<const N: usize>(buf: &mut [u8; N]) -> (res: Result<(), getrandom::Error>) {
    getrandom::fill(buf)
}

/// The error text for a failed OS random source, with its detail appended.
pub(crate) fn random_failure(error: &getrandom::Error) -> (e: String)
    ensures
        e@.len() >= 28,
        e@.subrange(0, 28) == "OS random generator failed: "@,
{
    let mut message = String::from_str("OS random generator failed: ");
    let detail = getrandom_error_text(error);
    message.append(detail.as_str());
    proof {
        reveal_strlit("OS random generator failed: ");
        assert(message@.subrange(0, 28) =~= "OS random generator failed: "@);
    }
    message
}

/// `N` bytes from the operating system's random source.
fn random_bytes<const N: usize>() -> (res: Result<[u8; N], String>)
    ensures
        res matches Err(e) ==> e@.len() >= 28 && e@.subrange(0, 28) == "OS random generator failed: "@,
{
    let mut bytes = [0_u8; N];
    match fill_random(&mut bytes) {
        Ok(()) => Ok(bytes),
        Err(error) => Err(random_failure(&error)),
    }
}

/// A fresh random Argon2 salt.
pub fn random_salt() -> (res: Result<[u8; SALT_LEN], String>)
    ensures
        res matches Err(e) ==> e@.len() >= 28 && e@.subrange(0, 28) == "OS random generator failed: "@,
{
    random_bytes()
}

/// A fresh random 192-bit nonce.
pub fn random_nonce() -> (res: Result<[u8; NONCE_LEN], String>)
    ensures
        res matches Err(e) ==> e@.len() >= 28 && e@.subrange(0, 28) == "OS random generator failed: "@,
{
    random_bytes()
}

/// XChaCha20-Poly1305 encryption (chacha20poly1305 crate: `KeyInit::new`,
/// `Aead::encrypt`). The crate refuses only a message of 2^32-1 blocks of
/// 64 bytes or more. The output is the ciphertext with the 16-byte tag
/// appended, one byte per plaintext byte plus the tag, and as an AEAD it
/// decrypts back to the plaintext under the same key, nonce and associated
/// data.
#[verifier::external_body]
fn xchacha20poly1305_encrypt(key: &[u8; KEY_LEN], nonce: &[u8; NONCE_LEN], plaintext: &[u8], aad: &[u8]) -> (res: Result<Vec<u8>, chacha20poly1305::Error>)
    ensures
        plaintext@.len() / 64 < u32::MAX ==> res is Ok,
        res matches Ok(c) ==> c@ == xchacha20poly1305_seal(key@, nonce@, plaintext@, aad@),
        res matches Ok(c) ==> c@.len() == plaintext@.len() + TAG_LEN,
        res matches Ok(c) ==> xchacha20poly1305_open(key@, nonce@, c@, aad@) == Some(plaintext@),
{
    let cipher = XChaCha20Poly1305::new(&Array(*key));
    cipher.encrypt(&Array(*nonce), Payload { msg: plaintext, aad })
}

/// XChaCha20-Poly1305 decryption (chacha20poly1305 crate: `KeyInit::new`,
/// `Aead::decrypt`): the plaintext when the ciphertext and tag authenticate
/// under the key, nonce and associated data, and an error otherwise.
#[verifier::external_body]
fn xchacha20poly1305_decrypt(key: &[u8; KEY_LEN], nonce: &[u8; NONCE_LEN], ciphertext: &[u8], aad: &[u8]) -> (res: Result<Vec<u8>, chacha20poly1305::Error>)
    ensures
        match res {
            Ok(p) => xchacha20poly1305_open(key@, nonce@, ciphertext@, aad@) == Some(p@),
            Err(_) => xchacha20poly1305_open(key@, nonce@, ciphertext@, aad@) is None,
        },
{
    let cipher = XChaCha20Poly1305::new(&Array(*key));
    cipher.decrypt(&Array(*nonce), Payload { msg: ciphertext, aad })
}

/// Encrypts `plaintext` with `aad` authenticated alongside it. Fails only for
/// messages beyond the cipher's block limit.
pub fn encrypt(key: &[u8; KEY_LEN], nonce: &[u8; NONCE_LEN], plaintext: &[u8], aad: &[u8]) -> (res: Result<Vec<u8>, String>)
    ensures
        plaintext@.len() / 64 < u32::MAX ==> res is Ok,
        match res {
            Ok(c) => {
                &&& c@ == xchacha20poly1305_seal(key@, nonce@, plaintext@, aad@)
                &&& c@.len() == plaintext@.len() + TAG_LEN
                &&& xchacha20poly1305_open(key@, nonce@, c@, aad@) == Some(plaintext@)
            },
            Err(e) => e@ == "vault encryption failed"@,
        },
{
    match xchacha20poly1305_encrypt(key, nonce, plaintext, aad) {
        Ok(c) => Ok(c),
        Err(_) => Err(String::from_str("vault encryption failed")),
    }
}

/// Decrypts and authenticates `ciphertext` with `aad`.
pub fn decrypt(key: &[u8; KEY_LEN], nonce: &[u8; NONCE_LEN], ciphertext: &[u8], aad: &[u8]) -> (res: Result<Vec<u8>, String>)
    ensures
        match res {
            Ok(p) => xchacha20poly1305_open(key@, nonce@, ciphertext@, aad@) == Some(p@),
            Err(e) => xchacha20poly1305_open(key@, nonce@, ciphertext@, aad@) is None && e@
                == "authentication failed"@,
        },
{
    match xchacha20poly1305_decrypt(key, nonce, ciphertext, aad) {
        Ok(p) => Ok(p),
        Err(_) => Err(String::from_str("authentication failed")),
    }
}

} // verus!
