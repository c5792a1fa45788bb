//! The encrypted vault file format: a fixed header carrying the KDF
//! settings, salt and nonce, followed by the XChaCha20-Poly1305 ciphertext of
//! the serialized payload, with the header authenticated as associated data.
use vstd::prelude::*;
use vstd::utf8::encode_utf8;

use crate::crypto::{
    current_kdf, decrypt, derive_key, derived_key, encrypt, kdf_error_text, kdf_valid,
    random_nonce, random_salt, xchacha20poly1305_open, KdfConfig, KEY_LEN, NONCE_LEN, SALT_LEN,
};
use crate::model::Vault;
use crate::text::{zeroize_array, zeroize_bytes};

verus! {

/// Length in bytes of the vault header.
pub const HEADER_LEN: usize = 60;

/// The shortest ciphertext a vault file can hold: the tag alone.
pub const MIN_CIPHERTEXT_LEN: usize = 16;

/// The eight magic bytes that open every vault file: `BRPASS01`.
pub open spec fn magic() -> Seq<u8> {
    seq![0x42u8, 0x52u8, 0x50u8, 0x41u8, 0x53u8, 0x53u8, 0x30u8, 0x31u8]
}

/// The little-endian encoding of a 32-bit value.
pub open spec fn le32(x: u32) -> Seq<u8> {
    seq![(x % 256) as u8, ((x / 256) % 256) as u8, ((x / 65536) % 256) as u8, (x / 16777216) as u8]
}

/// The 32-bit value of four little-endian bytes.
pub open spec fn le32_value(b: Seq<u8>) -> u32 {
    (b[0] + 256 * b[1] + 65536 * b[2] + 16777216 * b[3]) as u32
}

/// The vault header: magic, memory, iterations and lanes (each 32-bit
/// little-endian), salt, nonce.
pub open spec fn header_bytes(kdf: KdfConfig, salt: Seq<u8>, nonce: Seq<u8>) -> Seq<u8> {
    magic() + le32(kdf.memory_kib) + le32(kdf.iterations) + le32(kdf.parallelism) + salt + nonce
}

/// The KDF settings a header records.
pub open spec fn header_kdf(b: Seq<u8>) -> KdfConfig {
    KdfConfig {
        memory_kib: le32_value(b.subrange(8, 12)),
        iterations: le32_value(b.subrange(12, 16)),
        parallelism: le32_value(b.subrange(16, 20)),
    }
}

/// The salt a header records.
pub open spec fn header_salt(b: Seq<u8>) -> Seq<u8> {
    b.subrange(20, 36)
}

/// The nonce a header records.
pub open spec fn header_nonce(b: Seq<u8>) -> Seq<u8> {
    b.subrange(36, 60)
}

/// Whether `b` starts with a complete header with the magic bytes and KDF
/// settings within the safety limits.
pub open spec fn header_accepted(b: Seq<u8>) -> bool {
    &&& b.len() >= HEADER_LEN
    &&& b.subrange(0, 8) == magic()
    &&& kdf_valid(header_kdf(b))
}

/// The payload a vault file decrypts to under `key`: the file must be long
/// enough, its header must be accepted, and the ciphertext after the header
/// must authenticate with the header as associated data.
pub open spec fn blob_payload_with_key(blob: Seq<u8>, key: Seq<u8>) -> Option<Seq<u8>> {
    if blob.len() >= HEADER_LEN + MIN_CIPHERTEXT_LEN && header_accepted(blob) {
        xchacha20poly1305_open(
            key,
            header_nonce(blob),
            blob.subrange(HEADER_LEN as int, blob.len() as int),
            blob.subrange(0, HEADER_LEN as int),
        )
    } else {
        None
    }
}

/// The payload a vault file decrypts to with a master password: the key is
/// derived from the password with the salt and KDF settings of the header.
pub open spec fn blob_payload(blob: Seq<u8>, master_password: &str) -> Option<Seq<u8>> {
    blob_payload_with_key(blob, derived_key(master_password, header_salt(blob), header_kdf(blob)))
}

/// The error text of `parse_header` for a header that is not accepted.
pub open spec fn header_error_text(b: Seq<u8>) -> Seq<char> {
    if b.len() < HEADER_LEN {
        "vault header is incomplete"@
    } else if b.subrange(0, 8) != magic() {
        "not a BarePass vault or unsupported vault version"@
    } else {
        kdf_error_text(header_kdf(b))
    }
}

/// Whether `e` is the text of a failed key derivation.
pub open spec fn is_derivation_failure(e: Seq<char>) -> bool {
    e.len() >= 30 && e.subrange(0, 30) == "Argon2 key derivation failed: "@
}

/// Whether `e` is the text of a failed OS random source.
pub open spec fn is_random_failure(e: Seq<char>) -> bool {
    e.len() >= 28 && e.subrange(0, 28) == "OS random generator failed: "@
}

/// An unlocked vault: the decrypted data, the derived key, and the KDF
/// settings and salt the key was derived with. The master password itself is
/// not kept.
pub struct UnlockedVault {
    data: Vault,
    key: [u8; KEY_LEN],
    kdf: KdfConfig,
    salt: [u8; SALT_LEN],
}

/// A decrypted vault file whose payload still has to be deserialized.
pub struct DecryptedVault {
    payload: Vec<u8>,
    key: [u8; KEY_LEN],
    kdf: KdfConfig,
    salt: [u8; SALT_LEN],
}

impl UnlockedVault {
    /// The decrypted data.
    pub closed spec fn spec_data(&self) -> Vault {
        self.data
    }

    /// The derived key.
    pub closed spec fn spec_key(&self) -> Seq<u8> {
        self.key@
    }

    /// The KDF settings the key was derived with.
    pub closed spec fn spec_kdf(&self) -> KdfConfig {
        self.kdf
    }

    /// The salt the key was derived with.
    pub closed spec fn spec_salt(&self) -> Seq<u8> {
        self.salt@
    }

    /// The vault data.
    pub fn data(&self) -> (d: &Vault)
        ensures
            *d == self.spec_data(),
    {
        &self.data
    }

    /// The vault data, for editing.
    pub fn data_mut(&mut self) -> (d: &mut Vault)
        ensures
            *d == old(self).spec_data(),
            final(self).spec_data() == *final(d),
            final(self).spec_key() == old(self).spec_key(),
            final(self).spec_kdf() == old(self).spec_kdf(),
            final(self).spec_salt() == old(self).spec_salt(),
    {
        &mut self.data
    }

    /// Wipes the key and the vault data of a vault that is being dropped.
    pub fn wipe(self) {
        let UnlockedVault { data, key, kdf, salt } = self;
        let mut key = key;
        zeroize_array(&mut key);
        data.wipe();
    }

    /// The KDF settings the key was derived with.
    pub fn kdf(&self) -> (k: KdfConfig)
        ensures
            k == self.spec_kdf(),
    {
        self.kdf
    }
}

impl DecryptedVault {
    /// The decrypted, still serialized payload.
    pub closed spec fn spec_payload(&self) -> Seq<u8> {
        self.payload@
    }

    /// The decrypted, still serialized payload.
    pub fn payload(&self) -> (p: &[u8])
        ensures
            p@ == self.spec_payload(),
    {
        self.payload.as_slice()
    }

    /// The key the file was decrypted with.
    pub closed spec fn spec_key(&self) -> Seq<u8> {
        self.key@
    }

    /// The KDF settings recorded in the file.
    pub closed spec fn spec_kdf(&self) -> KdfConfig {
        self.kdf
    }

    /// The salt recorded in the file.
    pub closed spec fn spec_salt(&self) -> Seq<u8> {
        self.salt@
    }

    /// Wipes the payload and the key of a file whose payload is not kept.
    pub fn discard(self) {
        let DecryptedVault { payload, key, kdf, salt } = self;
        let mut payload = payload;
        let mut key = key;
        zeroize_bytes(&mut payload);
        zeroize_array(&mut key);
    }

    /// Wipes the serialized payload and keeps `data`, its deserialized form,
    /// with the key, KDF settings and salt.
    pub fn into_unlocked(self, data: Vault) -> (u: UnlockedVault)
        ensures
            u.spec_data() == data,
            u.spec_key() == self.spec_key(),
            u.spec_kdf() == self.spec_kdf(),
            u.spec_salt() == self.spec_salt(),
    {
        let DecryptedVault { payload, key, kdf, salt } = self;
        let mut payload = payload;
        zeroize_bytes(&mut payload);
        UnlockedVault { data, key, kdf, salt }
    }
}

/// The four little-endian bytes of `x`.
fn le_bytes(x: u32) -> (b: [u8; 4])
    ensures
        b@ == le32(x),
{
    let b: [u8; 4] = [(x % 256) as u8, ((x / 256) % 256) as u8, ((x / 65536) % 256) as u8, (x / 16777216) as u8];
    assert(b@ =~= le32(x));
    b
}

/// Appends the bytes of `src` to `dst`.
fn push_all(dst: &mut Vec<u8>, src: &[u8])
    ensures
        final(dst)@ == old(dst)@ + src@,
{
    let mut i: usize = 0;
    while i < src.len()
        invariant
            i <= src@.len(),
            dst@ == old(dst)@ + src@.subrange(0, i as int),
        decreases src@.len() - i,
    {
        dst.push(src[i]);
        i = i + 1;
        assert(dst@ =~= old(dst)@ + src@.subrange(0, i as int));
    }
    assert(src@.subrange(0, i as int) =~= src@);
}

/// Builds the vault header for the given KDF settings, salt and nonce.
pub fn build_header(kdf: KdfConfig, salt: &[u8; SALT_LEN], nonce: &[u8; NONCE_LEN]) -> (header: Vec<u8>)
    ensures
        header@ == header_bytes(kdf, salt@, nonce@),
        header@.len() == HEADER_LEN,
{
    let mut header: Vec<u8> = Vec::with_capacity(HEADER_LEN);
    let magic_bytes: [u8; 8] = [0x42, 0x52, 0x50, 0x41, 0x53, 0x53, 0x30, 0x31];
    assert(magic_bytes@ =~= magic());
    push_all(&mut header, &magic_bytes);
    push_all(&mut header, &le_bytes(kdf.memory_kib));
    push_all(&mut header, &le_bytes(kdf.iterations));
    push_all(&mut header, &le_bytes(kdf.parallelism));
    push_all(&mut header, salt);
    push_all(&mut header, nonce);
    assert(header@ =~= header_bytes(kdf, salt@, nonce@));
    header
}

/// The little-endian 32-bit value at `bytes[start..start + 4]`.
pub fn read_u32_le(bytes: &[u8], start: usize) -> (v: u32)
    requires
        start + 4 <= bytes@.len(),
    ensures
        v == le32_value(bytes@.subrange(start as int, start + 4)),
{
    let b0 = bytes[start] as u32;
    let b1 = bytes[start + 1] as u32;
    let b2 = bytes[start + 2] as u32;
    let b3 = bytes[start + 3] as u32;
    b0 + 256 * b1 + 65536 * b2 + 16777216 * b3
}

/// Reads and checks the vault header: its length, its magic bytes, and its
/// KDF settings against the safety limits.
pub fn parse_header(encrypted: &[u8]) -> (res: Result<(KdfConfig, [u8; SALT_LEN], [u8; NONCE_LEN]), String>)
    ensures
        match res {
            Ok((kdf, salt, nonce)) => {
                &&& header_accepted(encrypted@)
                &&& kdf == header_kdf(encrypted@)
                &&& salt@ == header_salt(encrypted@)
                &&& nonce@ == header_nonce(encrypted@)
            },
            Err(e) => !header_accepted(encrypted@) && e@ == header_error_text(encrypted@),
        },
{
    if encrypted.len() < HEADER_LEN {
        return Err(String::from_str("vault header is incomplete"));
    }
    let expected: [u8; 8] = [0x42, 0x52, 0x50, 0x41, 0x53, 0x53, 0x30, 0x31];
    let mut i: usize = 0;
    while i < 8
        invariant
            i <= 8,
            encrypted@.len() >= HEADER_LEN,
            expected@ == magic(),
            forall|j: int| 0 <= j < i ==> encrypted@[j] == magic()[j],
        decreases 8 - i,
    {
        if encrypted[i] != expected[i] {
            assert(encrypted@.subrange(0, 8)[i as int] != magic()[i as int]);
            return Err(String::from_str("not a BarePass vault or unsupported vault version"));
        }
        i = i + 1;
    }
    assert(encrypted@.subrange(0, 8) =~= magic());
    let kdf = KdfConfig {
        memory_kib: read_u32_le(encrypted, 8),
        iterations: read_u32_le(encrypted, 12),
        parallelism: read_u32_le(encrypted, 16),
    };
    match kdf.validate() {
        Err(e) => return Err(e),
        Ok(()) => {},
    }
    let mut salt = [0_u8; SALT_LEN];
    let mut k: usize = 0;
    while k < SALT_LEN
        invariant
            k <= SALT_LEN,
            encrypted@.len() >= HEADER_LEN,
            salt@.len() == SALT_LEN,
            forall|j: int| 0 <= j < k ==> salt@[j] == encrypted@[20 + j],
        decreases SALT_LEN - k,
    {
        salt[k] = encrypted[20 + k];
        k = k + 1;
    }
    let mut nonce = [0_u8; NONCE_LEN];
    let mut n: usize = 0;
    while n < NONCE_LEN
        invariant
            n <= NONCE_LEN,
            encrypted@.len() >= HEADER_LEN,
            nonce@.len() == NONCE_LEN,
            forall|j: int| 0 <= j < n ==> nonce@[j] == encrypted@[36 + j],
        decreases NONCE_LEN - n,
    {
        nonce[n] = encrypted[36 + n];
        n = n + 1;
    }
    assert(salt@ =~= header_salt(encrypted@));
    assert(nonce@ =~= header_nonce(encrypted@));
    Ok((kdf, salt, nonce))
}

/// Copies `bytes[lo..hi]` into a new vector.
fn copy_range(bytes: &[u8], lo: usize, hi: usize) -> (out: Vec<u8>)
    requires
        lo <= hi <= bytes@.len(),
    ensures
        out@ == bytes@.subrange(lo as int, hi as int),
{
    let mut out: Vec<u8> = Vec::new();
    let mut i: usize = lo;
    while i < hi
        invariant
            lo <= i <= hi,
            hi <= bytes@.len(),
            out@ == bytes@.subrange(lo as int, i as int),
        decreases hi - i,
    {
        out.push(bytes[i]);
        i = i + 1;
        assert(out@ =~= bytes@.subrange(lo as int, i as int));
    }
    out
}

/// A fresh unlocked vault for `data`: a random salt, and a key derived from
/// the master password with the current KDF settings.
pub fn create_unlocked_vault(data: Vault, master_password: &str) -> (res: Result<UnlockedVault, String>)
    ensures
        match res {
            Ok(u) => {
                &&& u.spec_data() == data
                &&& u.spec_kdf() == current_kdf_spec()
                &&& u.spec_key() == derived_key(master_password, u.spec_salt(), u.spec_kdf())
                &&& u.spec_salt().len() == SALT_LEN
            },
            Err(e) => is_random_failure(e@) || is_derivation_failure(e@),
        },
{
    let salt = match random_salt() {
        Ok(s) => s,
        Err(e) => return Err(e),
    };
    let kdf = current_kdf();
    match derive_key(master_password, &salt, kdf) {
        Ok(key) => Ok(UnlockedVault { data, key, kdf, salt }),
        Err(e) => Err(e),
    }
}

/// The settings `current_kdf` returns.
pub open spec fn current_kdf_spec() -> KdfConfig {
    KdfConfig { memory_kib: 65536u32, iterations: 3u32, parallelism: 1u32 }
}

/// Encrypts a serialized payload into a vault file under the vault's key,
/// with the given nonce; the header is authenticated as associated data.
pub fn seal_vault_payload(vault: &UnlockedVault, nonce: &[u8; NONCE_LEN], plaintext: &[u8]) -> (res: Result<Vec<u8>, String>)
    ensures
        plaintext@.len() / 64 < u32::MAX ==> res is Ok,
        match res {
            Ok(blob) => {
                &&& blob@.subrange(0, HEADER_LEN as int) == header_bytes(vault.spec_kdf(), vault.spec_salt(), nonce@)
                &&& xchacha20poly1305_open(
                    vault.spec_key(),
                    nonce@,
                    blob@.subrange(HEADER_LEN as int, blob@.len() as int),
                    blob@.subrange(0, HEADER_LEN as int),
                ) == Some(plaintext@)
                &&& blob@.len() == HEADER_LEN + plaintext@.len() + 16
            },
            Err(e) => e@ == "vault encryption failed"@,
        },
{
    let header = build_header(vault.kdf, &vault.salt, nonce);
    let ciphertext = match encrypt(&vault.key, nonce, plaintext, header.as_slice()) {
        Ok(c) => c,
        Err(e) => return Err(e),
    };
    let mut output: Vec<u8> = Vec::new();
    push_all(&mut output, header.as_slice());
    push_all(&mut output, ciphertext.as_slice());
    assert(output@.subrange(0, HEADER_LEN as int) =~= header@);
    assert(output@.subrange(HEADER_LEN as int, output@.len() as int) =~= ciphertext@);
    Ok(output)
}

/// Encrypts a serialized payload into a vault file under the vault's key with
/// a fresh random nonce, then wipes the plaintext.
pub fn encrypt_unlocked_vault(vault: &UnlockedVault, plaintext: Vec<u8>) -> (res: Result<Vec<u8>, String>)
    ensures
        plaintext@.len() / 64 < u32::MAX ==> (res matches Err(e) ==> is_random_failure(e@)),
        match res {
            Ok(blob) => {
                &&& blob@.len() == HEADER_LEN + plaintext@.len() + 16
                &&& blob@.subrange(0, HEADER_LEN as int) == header_bytes(
                    vault.spec_kdf(),
                    vault.spec_salt(),
                    header_nonce(blob@),
                )
                &&& xchacha20poly1305_open(
                    vault.spec_key(),
                    header_nonce(blob@),
                    blob@.subrange(HEADER_LEN as int, blob@.len() as int),
                    blob@.subrange(0, HEADER_LEN as int),
                ) == Some(plaintext@)
            },
            Err(e) => is_random_failure(e@) || e@ == "vault encryption failed"@,
        },
{
    let mut plaintext = plaintext;
    let nonce = match random_nonce() {
        Ok(n) => n,
        Err(e) => {
            zeroize_bytes(&mut plaintext);
            return Err(e);
        },
    };
    let sealed = seal_vault_payload(vault, &nonce, plaintext.as_slice());
    zeroize_bytes(&mut plaintext);
    proof {
        if sealed is Ok {
            let blob = sealed->Ok_0;
            let h = header_bytes(vault.spec_kdf(), vault.spec_salt(), nonce@);
            assert(blob@.subrange(0, HEADER_LEN as int) == h);
            assert(header_nonce(blob@) =~= h.subrange(36, 60));
            assert(h.subrange(36, 60) =~= nonce@);
        }
    }
    sealed
}

/// Decrypts a vault file with an already derived key, after the length and
/// header checks; the payload is returned with the header's settings.
pub fn open_vault_blob_with_key(encrypted: &[u8], key: &[u8; KEY_LEN]) -> (res: Result<(KdfConfig, [u8; SALT_LEN], Vec<u8>), String>)
    ensures
        match res {
            Ok((kdf, salt, payload)) => {
                &&& blob_payload_with_key(encrypted@, key@) == Some(payload@)
                &&& kdf == header_kdf(encrypted@)
                &&& salt@ == header_salt(encrypted@)
            },
            Err(e) => blob_payload_with_key(encrypted@, key@) is None,
        },
{
    if encrypted.len() < HEADER_LEN + MIN_CIPHERTEXT_LEN {
        return Err(String::from_str("vault file is too short"));
    }
    let (kdf, salt, nonce) = match parse_header(encrypted) {
        Ok(h) => h,
        Err(e) => return Err(e),
    };
    let aad = copy_range(encrypted, 0, HEADER_LEN);
    let ciphertext = copy_range(encrypted, HEADER_LEN, encrypted.len());
    match decrypt(key, &nonce, ciphertext.as_slice(), aad.as_slice()) {
        Ok(p) => Ok((kdf, salt, p)),
        Err(e) => Err(e),
    }
}

/// Decrypts a vault file with the master password: checks the length and the
/// header, derives the key from the password with the header's salt and KDF
/// settings, and authenticates and decrypts the payload.
pub fn decrypt_vault_blob(encrypted: &[u8], master_password: &str) -> (res: Result<DecryptedVault, String>)
    ensures
        match res {
            Ok(d) => {
                &&& blob_payload(encrypted@, master_password) == Some(d.spec_payload())
                &&& d.spec_kdf() == header_kdf(encrypted@)
                &&& d.spec_salt() == header_salt(encrypted@)
                &&& d.spec_key() == derived_key(master_password, d.spec_salt(), d.spec_kdf())
            },
            Err(e) => {
                ||| blob_payload(encrypted@, master_password) is None
                ||| is_derivation_failure(e@)
            },
        },
        encrypted@.len() < HEADER_LEN + MIN_CIPHERTEXT_LEN ==> (res matches Err(e) && e@ == "vault file is too short"@),
        encrypted@.len() >= HEADER_LEN + MIN_CIPHERTEXT_LEN && !header_accepted(encrypted@) ==> (res matches Err(e)
            && e@ == header_error_text(encrypted@)),
{
    if encrypted.len() < HEADER_LEN + MIN_CIPHERTEXT_LEN {
        return Err(String::from_str("vault file is too short"));
    }
    let (kdf, salt, _nonce) = match parse_header(encrypted) {
        Ok(h) => h,
        Err(e) => return Err(e),
    };
    let key = match derive_key(master_password, &salt, kdf) {
        Ok(k) => k,
        Err(e) => return Err(e),
    };
    match open_vault_blob_with_key(encrypted, &key) {
        Ok((kdf2, salt2, mut payload)) => {
            let _ = (kdf2, salt2);
            Ok(DecryptedVault { payload, key, kdf, salt })
        },
        Err(e) => Err(e),
    }
}

/// Decrypts a vault file with the key of an unlocked vault, provided the file
/// records the same KDF settings and salt. Used to recognise the current
/// primary or backup file before it is replaced.
pub fn decrypt_with_unlocked_key(encrypted: &[u8], vault: &UnlockedVault) -> (res: Option<Vec<u8>>)
    ensures
        match res {
            Some(payload) => {
                &&& blob_payload_with_key(encrypted@, vault.spec_key()) == Some(payload@)
                &&& header_kdf(encrypted@) == vault.spec_kdf()
                &&& header_salt(encrypted@) == vault.spec_salt()
            },
            None => {
                ||| blob_payload_with_key(encrypted@, vault.spec_key()) is None
                ||| header_kdf(encrypted@) != vault.spec_kdf()
                ||| header_salt(encrypted@) != vault.spec_salt()
            },
        },
{
    match open_vault_blob_with_key(encrypted, &vault.key) {
        Err(_) => None,
        Ok((kdf, salt, payload)) => {
            let mut payload = payload;
            let mut same = kdf.memory_kib == vault.kdf.memory_kib && kdf.iterations == vault.kdf.iterations
                && kdf.parallelism == vault.kdf.parallelism;
            let mut i: usize = 0;
            while i < SALT_LEN
                invariant
                    i <= SALT_LEN,
                    salt@.len() == SALT_LEN,
                    vault.salt@.len() == SALT_LEN,
                    same ==> forall|j: int| 0 <= j < i ==> salt@[j] == vault.salt@[j],
                    same ==> kdf == vault.kdf,
                    !same ==> (kdf != vault.kdf || salt@ != vault.salt@),
                decreases SALT_LEN - i,
            {
                if salt[i] != vault.salt[i] {
                    same = false;
                }
                i = i + 1;
            }
            if same {
                assert(salt@ =~= vault.salt@);
                Some(payload)
            } else {
                zeroize_bytes(&mut payload);
                None
            }
        },
    }
}

/// The header written by `build_header` is read back by `parse_header`: the
/// settings, salt and nonce come back unchanged, whatever follows the header.
pub proof fn lemma_header_round_trip(kdf: KdfConfig, salt: Seq<u8>, nonce: Seq<u8>, rest: Seq<u8>)
    requires
        kdf_valid(kdf),
        salt.len() == SALT_LEN,
        nonce.len() == NONCE_LEN,
    ensures
        ({
            let b = header_bytes(kdf, salt, nonce) + rest;
            &&& header_accepted(b)
            &&& header_kdf(b) == kdf
            &&& header_salt(b) == salt
            &&& header_nonce(b) == nonce
            &&& b.subrange(0, HEADER_LEN as int) == header_bytes(kdf, salt, nonce)
            &&& b.subrange(HEADER_LEN as int, b.len() as int) == rest
        }),
{
    let h = header_bytes(kdf, salt, nonce);
    let b = h + rest;
    lemma_le32_round_trip(kdf.memory_kib);
    lemma_le32_round_trip(kdf.iterations);
    lemma_le32_round_trip(kdf.parallelism);
    assert(b.subrange(0, 8) =~= magic());
    assert(b.subrange(8, 12) =~= le32(kdf.memory_kib));
    assert(b.subrange(12, 16) =~= le32(kdf.iterations));
    assert(b.subrange(16, 20) =~= le32(kdf.parallelism));
    assert(header_kdf(b) == kdf);
    assert(header_salt(b) =~= salt);
    assert(header_nonce(b) =~= nonce);
    assert(b.subrange(0, HEADER_LEN as int) =~= h);
    assert(b.subrange(HEADER_LEN as int, b.len() as int) =~= rest);
}

/// Decoding the little-endian encoding of a value gives the value back.
pub proof fn lemma_le32_round_trip(x: u32)
    ensures
        le32_value(le32(x)) == x,
{
    let b = le32(x);
    assert(b[0] == x % 256);
    assert(b[1] == (x / 256) % 256);
    assert(b[2] == (x / 65536) % 256);
    assert(b[3] == x / 16777216);
    assert((x % 256) + 256 * ((x / 256) % 256) + 65536 * ((x / 65536) % 256) + 16777216 * (x / 16777216) == x)
        by (nonlinear_arith);
}

/// What is encrypted under a vault's key decrypts back with the master
/// password it was derived from: a file whose header records the vault's KDF
/// settings and salt, and whose body opens under the vault's key, opens to the
/// same payload when the key is derived again from the password.
pub proof fn lemma_encrypted_vault_round_trip(
    blob: Seq<u8>,
    master_password: &str,
    key: Seq<u8>,
    kdf: KdfConfig,
    salt: Seq<u8>,
    payload: Seq<u8>,
)
    requires
        header_kdf(blob) == kdf,
        header_salt(blob) == salt,
        key == derived_key(master_password, salt, kdf),
        blob_payload_with_key(blob, key) == Some(payload),
    ensures
        blob_payload(blob, master_password) == Some(payload),
{
}

/// A file written by `encrypt_unlocked_vault` for a vault with settings within
/// the limits opens under that vault's key to the payload that was written.
pub proof fn lemma_sealed_blob_opens(blob: Seq<u8>, key: Seq<u8>, kdf: KdfConfig, salt: Seq<u8>, payload: Seq<u8>)
    requires
        kdf_valid(kdf),
        salt.len() == SALT_LEN,
        blob.len() == HEADER_LEN + payload.len() + 16,
        blob.subrange(0, HEADER_LEN as int) == header_bytes(kdf, salt, header_nonce(blob)),
        xchacha20poly1305_open(
            key,
            header_nonce(blob),
            blob.subrange(HEADER_LEN as int, blob.len() as int),
            blob.subrange(0, HEADER_LEN as int),
        ) == Some(payload),
    ensures
        blob_payload_with_key(blob, key) == Some(payload),
        header_kdf(blob) == kdf,
        header_salt(blob) == salt,
{
    let nonce = header_nonce(blob);
    let rest = blob.subrange(HEADER_LEN as int, blob.len() as int);
    lemma_header_round_trip(kdf, salt, nonce, rest);
    assert(header_bytes(kdf, salt, nonce) + rest =~= blob);
}

/// Vault file round trip: a vault made by `create_unlocked_vault` from a
/// master password, written to a file as `encrypt_unlocked_vault` writes it,
/// reads back with the same password: the file is long enough, its header is
/// accepted and records the vault's settings and salt, and it decrypts to the
/// payload that was written. So `decrypt_vault_blob` on that file and
/// password gives that payload, settings and salt, or fails only in deriving
/// the key.
pub proof fn lemma_vault_file_round_trip(vault: UnlockedVault, master_password: &str, blob: Seq<u8>, payload: Seq<u8>)
    requires
        vault.spec_kdf() == current_kdf_spec(),
        vault.spec_salt().len() == SALT_LEN,
        vault.spec_key() == derived_key(master_password, vault.spec_salt(), vault.spec_kdf()),
        blob.len() == HEADER_LEN + payload.len() + 16,
        blob.subrange(0, HEADER_LEN as int) == header_bytes(vault.spec_kdf(), vault.spec_salt(), header_nonce(blob)),
        xchacha20poly1305_open(
            vault.spec_key(),
            header_nonce(blob),
            blob.subrange(HEADER_LEN as int, blob.len() as int),
            blob.subrange(0, HEADER_LEN as int),
        ) == Some(payload),
    ensures
        blob.len() >= HEADER_LEN + MIN_CIPHERTEXT_LEN,
        header_accepted(blob),
        header_kdf(blob) == vault.spec_kdf(),
        header_salt(blob) == vault.spec_salt(),
        blob_payload(blob, master_password) == Some(payload),
{
    lemma_sealed_blob_opens(blob, vault.spec_key(), vault.spec_kdf(), vault.spec_salt(), payload);
    lemma_encrypted_vault_round_trip(blob, master_password, vault.spec_key(), vault.spec_kdf(), vault.spec_salt(), payload);
    assert(blob.subrange(0, 8) =~= header_bytes(vault.spec_kdf(), vault.spec_salt(), header_nonce(blob)).subrange(0, 8));
}

/// A lowercase hexadecimal digit.
pub open spec fn hex_digit(v: int) -> char {
    if v < 10 {
        (v + 48) as char
    } else {
        (v + 87) as char
    }
}

/// Bytes as lowercase hexadecimal, two digits per byte, high nibble first.
pub open spec fn hex_text(b: Seq<u8>) -> Seq<char>
    decreases b.len(),
{
    if b.len() == 0 {
        Seq::empty()
    } else {
        hex_text(b.drop_last()) + seq![hex_digit((b.last() / 16) as int), hex_digit((b.last() % 16) as int)]
    }
}

/// The lowercase hexadecimal digit for a nibble.
fn hex_char(v: u8) -> (c: char)
    requires
        v < 16,
    ensures
        c == hex_digit(v as int),
{
    if v < 10 {
        (v + 48) as char
    } else {
        (v + 87) as char
    }
}

/// The first `n` bytes as lowercase hexadecimal.
pub fn hex_prefix(bytes: &[u8], n: usize) -> (t: String)
    requires
        n <= bytes@.len(),
    ensures
        t@ == hex_text(bytes@.subrange(0, n as int)),
{
    let mut t = String::new();
    let mut i: usize = 0;
    while i < n
        invariant
            i <= n <= bytes@.len(),
            t@ == hex_text(bytes@.subrange(0, i as int)),
        decreases n - i,
    {
        let b = bytes[i];
        crate::text::string_push(&mut t, hex_char(b / 16));
        crate::text::string_push(&mut t, hex_char(b % 16));
        proof {
            let p = bytes@.subrange(0, i + 1);
            assert(p.drop_last() =~= bytes@.subrange(0, i as int));
            assert(p.last() == b);
        }
        i = i + 1;
    }
    t
}

/// A random name part for a staging file: the first 12 bytes of a fresh
/// nonce as 24 hexadecimal digits.
pub fn staging_token() -> (res: Result<String, String>)
    ensures
        match res {
            Ok(t) => exists|b: Seq<u8>| b.len() == 12 && t@ == #[trigger] hex_text(b),
            Err(e) => is_random_failure(e@),
        },
{
    match random_nonce() {
        Ok(nonce) => {
            let t = hex_prefix(&nonce, 12);
            proof {
                let b = nonce@.subrange(0, 12);
                assert(t@ == hex_text(b));
            }
            Ok(t)
        },
        Err(e) => Err(e),
    }
}

/// A step in keeping the backup copy of the vault file valid.
#[derive(Clone, Copy, Debug, PartialEq, Eq, Structural)]
pub enum BackupStep {
    /// Write the new vault file's bytes as the backup.
    WriteReplacement,
    /// Read the current vault file and check it with the vault's key.
    CheckPrimary,
    /// Copy the current vault file to the backup.
    CopyPrimary,
    /// Read the backup and check it with the vault's key.
    CheckBackup,
    /// The backup is valid as it is.
    KeepBackup,
}

/// The first step before a save replaces the vault file: without a current
/// file the new bytes become the backup; otherwise the current file is
/// checked.
pub fn backup_before_save(primary_exists: bool) -> (step: BackupStep)
    ensures
        step == if primary_exists {
            BackupStep::CheckPrimary
        } else {
            BackupStep::WriteReplacement
        },
{
    if primary_exists {
        BackupStep::CheckPrimary
    } else {
        BackupStep::WriteReplacement
    }
}

/// After checking the current vault file before a save: a file that opens
/// with the vault's key becomes the backup; otherwise the backup is checked.
pub fn backup_after_primary_check(primary_opens: bool) -> (step: BackupStep)
    ensures
        step == if primary_opens {
            BackupStep::CopyPrimary
        } else {
            BackupStep::CheckBackup
        },
{
    if primary_opens {
        BackupStep::CopyPrimary
    } else {
        BackupStep::CheckBackup
    }
}

/// After checking the backup: a backup that opens with the vault's key is
/// kept. Otherwise, before a save, the new bytes become the backup; after an
/// unlock, the current vault file does.
pub fn backup_after_backup_check(backup_opens: bool, before_save: bool) -> (step: BackupStep)
    ensures
        step == if backup_opens {
            BackupStep::KeepBackup
        } else if before_save {
            BackupStep::WriteReplacement
        } else {
            BackupStep::CopyPrimary
        },
{
    if backup_opens {
        BackupStep::KeepBackup
    } else if before_save {
        BackupStep::WriteReplacement
    } else {
        BackupStep::CopyPrimary
    }
}

} // verus!
