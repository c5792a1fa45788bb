use barepass::crypto::{decrypt, derive_key, encrypt, KdfConfig, KEY_LEN, NONCE_LEN, SALT_LEN};
use barepass::model::{PasswordEntry, Vault, VaultItem, VaultItemRef, CURRENT_VAULT_FORMAT_VERSION};
use barepass::storage::{
    backup_after_backup_check, backup_after_primary_check, backup_before_save, BackupStep,
    build_header, create_unlocked_vault, decrypt_vault_blob, decrypt_with_unlocked_key,
    encrypt_unlocked_vault, parse_header, HEADER_LEN,
};

const MASTER_PASSWORD: &str = "correct horse battery staple";

fn sample_vault() -> Vault {
    Vault {
        format_version: CURRENT_VAULT_FORMAT_VERSION,
        created_unix: 123,
        updated_unix: 456,
        entries: vec![PasswordEntry {
            id: 1,
            title: "GitHub".into(),
            username: "tamas@example.test".into(),
            password: "very-secret-password".into(),
            url: "https://github.com".into(),
            notes: "BarePass encrypted-vault round-trip test".into(),
            deleted_unix: None,
        }],
        notes: Vec::new(),
    }
}

fn entry_json(entry: &PasswordEntry) -> serde_json::Value {
    let mut map = serde_json::Map::new();
    map.insert("id".into(), entry.id.into());
    map.insert("title".into(), entry.title.clone().into());
    map.insert("username".into(), entry.username.clone().into());
    map.insert("password".into(), entry.password.clone().into());
    map.insert("url".into(), entry.url.clone().into());
    map.insert("notes".into(), entry.notes.clone().into());
    map.insert("deleted_unix".into(), entry.deleted_unix.into());
    serde_json::Value::Object(map)
}

fn payload(vault: &Vault) -> Vec<u8> {
    let items: Vec<serde_json::Value> = vault
        .payload_items()
        .iter()
        .filter_map(|item| match item {
            VaultItemRef::Password(entry) => {
                let mut map = serde_json::Map::new();
                map.insert("type".into(), "password".into());
                map.insert("data".into(), entry_json(entry));
                Some(serde_json::Value::Object(map))
            }
            VaultItemRef::SecureNote(_) => None,
        })
        .collect();
    let mut map = serde_json::Map::new();
    map.insert("format_version".into(), CURRENT_VAULT_FORMAT_VERSION.into());
    map.insert("created_unix".into(), vault.created_unix.into());
    map.insert("updated_unix".into(), vault.updated_unix.into());
    map.insert("items".into(), serde_json::Value::Array(items));
    serde_json::to_vec(&serde_json::Value::Object(map)).unwrap()
}

fn vault_from_payload(bytes: &[u8]) -> Vault {
    let value: serde_json::Value = serde_json::from_slice(bytes).unwrap();
    let items = value["items"]
        .as_array()
        .unwrap()
        .iter()
        .map(|item| {
            let data = &item["data"];
            VaultItem::Password(PasswordEntry {
                id: data["id"].as_u64().unwrap(),
                title: data["title"].as_str().unwrap().into(),
                username: data["username"].as_str().unwrap().into(),
                password: data["password"].as_str().unwrap().into(),
                url: data["url"].as_str().unwrap().into(),
                notes: data["notes"].as_str().unwrap().into(),
                deleted_unix: data["deleted_unix"].as_u64(),
            })
        })
        .collect::<Vec<_>>();
    Vault::from_payload_fields(
        value["format_version"].as_u64().unwrap() as u32,
        value["created_unix"].as_u64().unwrap(),
        value["updated_unix"].as_u64().unwrap(),
        None,
        Some(items),
    )
    .unwrap()
}

fn encrypted_sample() -> Vec<u8> {
    let unlocked = create_unlocked_vault(sample_vault(), MASTER_PASSWORD).unwrap();
    let plaintext = payload(unlocked.data());
    encrypt_unlocked_vault(&unlocked, plaintext).unwrap()
}

#[test]
fn encrypted_vault_round_trip_preserves_secret_data() {
    let encrypted = encrypted_sample();

    assert!(
        !encrypted
            .windows(b"very-secret-password".len())
            .any(|window| window == b"very-secret-password")
    );

    let reopened = decrypt_vault_blob(&encrypted, MASTER_PASSWORD).unwrap();

    assert_eq!(vault_from_payload(reopened.payload()), sample_vault());
}

#[test]
fn wrong_master_password_cannot_decrypt_vault() {
    let encrypted = encrypted_sample();

    assert!(decrypt_vault_blob(&encrypted, "absolutely the wrong password").is_err());
}

#[test]
fn tampered_ciphertext_is_rejected() {
    let mut encrypted = encrypted_sample();

    let last = encrypted.len() - 1;
    encrypted[last] ^= 0x01;

    assert!(decrypt_vault_blob(&encrypted, MASTER_PASSWORD).is_err());
}

#[test]
fn tampered_header_is_rejected() {
    let mut encrypted = encrypted_sample();

    encrypted[20] ^= 0x01;

    assert!(decrypt_vault_blob(&encrypted, MASTER_PASSWORD).is_err());
}

#[test]
fn the_unlocked_key_reopens_its_own_blob_and_the_payload_comes_back() {
    let unlocked = create_unlocked_vault(sample_vault(), MASTER_PASSWORD).unwrap();
    let plaintext = payload(unlocked.data());
    let encrypted = encrypt_unlocked_vault(&unlocked, plaintext.clone()).unwrap();
    assert_eq!(encrypted.len(), HEADER_LEN + plaintext.len() + 16);
    assert_eq!(decrypt_with_unlocked_key(&encrypted, &unlocked), Some(plaintext));

    let mut damaged = encrypted.clone();
    damaged[HEADER_LEN] ^= 0x80;
    assert_eq!(decrypt_with_unlocked_key(&damaged, &unlocked), None);
}

#[test]
fn header_round_trips_through_the_parser() {
    let kdf = KdfConfig { memory_kib: 8192, iterations: 2, parallelism: 4 };
    let salt = [7u8; SALT_LEN];
    let nonce = [9u8; NONCE_LEN];
    let header = build_header(kdf, &salt, &nonce);
    assert_eq!(header.len(), HEADER_LEN);
    assert_eq!(&header[..8], b"BRPASS01");
    let mut blob = header.clone();
    blob.extend_from_slice(&[0u8; 16]);
    let (parsed_kdf, parsed_salt, parsed_nonce) = parse_header(&blob).unwrap();
    assert_eq!(parsed_kdf, kdf);
    assert_eq!(parsed_salt, salt);
    assert_eq!(parsed_nonce, nonce);
}

#[test]
fn header_errors_name_the_problem() {
    assert_eq!(parse_header(b"short").unwrap_err(), "vault header is incomplete");
    let kdf = KdfConfig { memory_kib: 8192, iterations: 2, parallelism: 4 };
    let mut blob = build_header(kdf, &[0u8; SALT_LEN], &[0u8; NONCE_LEN]);
    blob.extend_from_slice(&[0u8; 16]);
    let mut bad_magic = blob.clone();
    bad_magic[0] = b'X';
    assert_eq!(parse_header(&bad_magic).unwrap_err(), "not a BarePass vault or unsupported vault version");
    let heavy = KdfConfig { memory_kib: 8192, iterations: 11, parallelism: 4 };
    let mut blob = build_header(heavy, &[0u8; SALT_LEN], &[0u8; NONCE_LEN]);
    blob.extend_from_slice(&[0u8; 16]);
    assert_eq!(
        parse_header(&blob).unwrap_err(),
        "vault KDF iteration setting is outside BarePass safety limits"
    );
}

#[test]
fn kdf_limits_are_checked_in_order() {
    let ok = KdfConfig { memory_kib: 8192, iterations: 1, parallelism: 1 };
    assert!(ok.validate().is_ok());
    let top = KdfConfig { memory_kib: 262144, iterations: 10, parallelism: 16 };
    assert!(top.validate().is_ok());
    let low_memory = KdfConfig { memory_kib: 8191, iterations: 0, parallelism: 0 };
    assert_eq!(
        low_memory.validate().unwrap_err(),
        "vault KDF memory setting is outside BarePass safety limits"
    );
    let no_iterations = KdfConfig { memory_kib: 8192, iterations: 0, parallelism: 0 };
    assert_eq!(
        no_iterations.validate().unwrap_err(),
        "vault KDF iteration setting is outside BarePass safety limits"
    );
    let wide = KdfConfig { memory_kib: 8192, iterations: 1, parallelism: 17 };
    assert_eq!(
        wide.validate().unwrap_err(),
        "vault KDF parallelism setting is outside BarePass safety limits"
    );
}

#[test]
fn key_derivation_is_deterministic_and_salted() {
    let kdf = KdfConfig { memory_kib: 8192, iterations: 1, parallelism: 1 };
    let a = derive_key("password", &[1u8; SALT_LEN], kdf).unwrap();
    let b = derive_key("password", &[1u8; SALT_LEN], kdf).unwrap();
    let c = derive_key("password", &[2u8; SALT_LEN], kdf).unwrap();
    assert_eq!(a, b);
    assert_ne!(a, c);
    let bad = KdfConfig { memory_kib: 1, iterations: 1, parallelism: 1 };
    assert!(derive_key("password", &[1u8; SALT_LEN], bad).is_err());
}

#[test]
fn aead_round_trip_and_authentication() {
    let key = [3u8; KEY_LEN];
    let nonce = [4u8; NONCE_LEN];
    let sealed = encrypt(&key, &nonce, b"hello", b"header").unwrap();
    assert_eq!(sealed.len(), 5 + 16);
    assert_ne!(&sealed[..5], b"hello");
    assert_eq!(decrypt(&key, &nonce, &sealed, b"header").unwrap(), b"hello".to_vec());
    assert!(decrypt(&key, &nonce, &sealed, b"other").is_err());
    assert!(decrypt(&[5u8; KEY_LEN], &nonce, &sealed, b"header").is_err());
}

#[test]
fn staging_tokens_are_twenty_four_hex_digits() {
    let a = barepass::storage::staging_token().unwrap();
    assert_eq!(a.len(), 24);
    assert!(a.chars().all(|c| c.is_ascii_hexdigit() && !c.is_ascii_uppercase()));
    assert_eq!(barepass::storage::hex_prefix(&[0x00, 0xab, 0x7f, 0x10], 3), "00ab7f");
}

#[test]
fn backup_steps_follow_the_vault_files() {
    assert_eq!(backup_before_save(false), BackupStep::WriteReplacement);
    assert_eq!(backup_before_save(true), BackupStep::CheckPrimary);
    assert_eq!(backup_after_primary_check(true), BackupStep::CopyPrimary);
    assert_eq!(backup_after_primary_check(false), BackupStep::CheckBackup);
    assert_eq!(backup_after_backup_check(true, true), BackupStep::KeepBackup);
    assert_eq!(backup_after_backup_check(false, true), BackupStep::WriteReplacement);
    assert_eq!(backup_after_backup_check(false, false), BackupStep::CopyPrimary);
}
