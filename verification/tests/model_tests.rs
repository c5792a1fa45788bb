use barepass::model::{PasswordEntry, SecureNote, Vault, VaultItem, VaultItemRef, CURRENT_VAULT_FORMAT_VERSION};

fn entry(id: u64, title: &str, password: &str, deleted_unix: Option<u64>) -> PasswordEntry {
    PasswordEntry {
        id,
        title: title.into(),
        username: format!("user-{id}"),
        password: password.into(),
        url: String::new(),
        notes: String::new(),
        deleted_unix,
    }
}

#[test]
fn new_vault_uses_the_current_generic_item_format_version() {
    let vault = Vault::new();

    assert_eq!(vault.format_version, CURRENT_VAULT_FORMAT_VERSION);
}

#[test]
fn password_entries_receive_unique_monotonic_ids() {
    let mut vault = Vault::new();

    let first = vault
        .add_password_entry(
            "GitHub".into(),
            "first@example.test".into(),
            "first-secret".into(),
            "https://github.com".into(),
            String::new(),
        )
        .unwrap();

    let second = vault
        .add_password_entry(
            "GitLab".into(),
            "second@example.test".into(),
            "second-secret".into(),
            "https://gitlab.com".into(),
            String::new(),
        )
        .unwrap();

    assert_eq!(first, 1);
    assert_eq!(second, 2);
    assert_eq!(vault.entries.len(), 2);
    assert_eq!(vault.entries[0].id, first);
    assert_eq!(vault.entries[1].id, second);
    assert!(vault.entries.iter().all(|entry| entry.deleted_unix.is_none()));
}

#[test]
fn editing_password_entry_preserves_id_and_replaces_fields() {
    let mut vault = Vault::new();

    let id = vault
        .add_password_entry(
            "Old title".into(),
            "old-user".into(),
            "old-password".into(),
            "https://old.example".into(),
            "old notes".into(),
        )
        .unwrap();

    vault.updated_unix = 0;

    vault
        .update_password_entry(
            id,
            "New title".into(),
            "new-user".into(),
            "new-password".into(),
            "https://new.example".into(),
            "new notes".into(),
        )
        .unwrap();

    let entry = &vault.entries[0];

    assert_eq!(entry.id, id);
    assert_eq!(entry.title, "New title");
    assert_eq!(entry.username, "new-user");
    assert_eq!(entry.password, "new-password");
    assert_eq!(entry.url, "https://new.example");
    assert_eq!(entry.notes, "new notes");
    assert_eq!(entry.deleted_unix, None);
    assert!(vault.updated_unix > 0);
}

#[test]
fn deleting_password_entry_moves_it_to_recently_deleted_without_destroying_data() {
    let mut vault = Vault::new();

    let id = vault
        .add_password_entry(
            "Important account".into(),
            "keep-this-user".into(),
            "keep-this-password".into(),
            "https://important.example".into(),
            "keep these notes".into(),
        )
        .unwrap();

    vault.updated_unix = 0;

    let deleted_unix = vault.move_password_entry_to_deleted(id).unwrap();
    let entry = &vault.entries[0];

    assert_eq!(vault.entries.len(), 1);
    assert_eq!(entry.id, id);
    assert_eq!(entry.title, "Important account");
    assert_eq!(entry.username, "keep-this-user");
    assert_eq!(entry.password, "keep-this-password");
    assert_eq!(entry.url, "https://important.example");
    assert_eq!(entry.notes, "keep these notes");
    assert_eq!(entry.deleted_unix, Some(deleted_unix));
    assert_eq!(vault.updated_unix, deleted_unix);
}

#[test]
fn permanent_delete_only_removes_an_entry_after_soft_delete() {
    let mut vault = Vault::new();

    let id = vault
        .add_password_entry(
            "Disposable account".into(),
            "delete-this-user".into(),
            "delete-this-password".into(),
            "https://delete.example".into(),
            "delete these notes".into(),
        )
        .unwrap();

    assert!(vault.permanently_delete_password_entry(id).is_err());

    vault.move_password_entry_to_deleted(id).unwrap();

    let (index, removed) = vault.permanently_delete_password_entry(id).unwrap();

    assert_eq!(index, 0);
    assert!(vault.entries.is_empty());
    assert_eq!(removed.id, id);
    assert_eq!(removed.title, "Disposable account");
    assert_eq!(removed.username, "delete-this-user");
    assert_eq!(removed.password, "delete-this-password");
    assert_eq!(removed.url, "https://delete.example");
    assert_eq!(removed.notes, "delete these notes");
    assert!(removed.deleted_unix.is_some());
}

#[test]
fn empty_recently_deleted_removes_only_deleted_entries() {
    let mut vault = Vault::new();

    let active_id = vault
        .add_password_entry(
            "Keep me".into(),
            "active-user".into(),
            "active-password".into(),
            "https://active.example".into(),
            "active notes".into(),
        )
        .unwrap();

    let deleted_one = vault
        .add_password_entry(
            "Delete one".into(),
            "deleted-one".into(),
            "deleted-password-one".into(),
            "https://deleted-one.example".into(),
            String::new(),
        )
        .unwrap();

    let deleted_two = vault
        .add_password_entry(
            "Delete two".into(),
            "deleted-two".into(),
            "deleted-password-two".into(),
            "https://deleted-two.example".into(),
            String::new(),
        )
        .unwrap();

    vault.move_password_entry_to_deleted(deleted_one).unwrap();
    vault.move_password_entry_to_deleted(deleted_two).unwrap();

    let removed = vault.permanently_delete_all_deleted_entries();

    assert_eq!(removed.len(), 2);
    assert_eq!(removed[0].0, 2);
    assert_eq!(removed[1].0, 1);
    assert_eq!(vault.entries.len(), 1);
    assert_eq!(vault.entries[0].id, active_id);
    assert_eq!(vault.entries[0].title, "Keep me");
    assert_eq!(vault.entries[0].deleted_unix, None);
}

#[test]
fn purge_deleted_before_removes_only_expired_deleted_entries() {
    let mut vault = Vault::new();

    let active_id = vault
        .add_password_entry(
            "Active".into(),
            "active-user".into(),
            "active-password".into(),
            String::new(),
            String::new(),
        )
        .unwrap();

    let expired_id = vault
        .add_password_entry(
            "Expired deleted".into(),
            "expired-user".into(),
            "expired-password".into(),
            String::new(),
            String::new(),
        )
        .unwrap();

    let recent_id = vault
        .add_password_entry(
            "Recent deleted".into(),
            "recent-user".into(),
            "recent-password".into(),
            String::new(),
            String::new(),
        )
        .unwrap();

    vault.move_password_entry_to_deleted(expired_id).unwrap();
    vault.move_password_entry_to_deleted(recent_id).unwrap();

    vault.entries.iter_mut().find(|entry| entry.id == expired_id).unwrap().deleted_unix = Some(100);
    vault.entries.iter_mut().find(|entry| entry.id == recent_id).unwrap().deleted_unix = Some(200);

    vault.updated_unix = 0;

    let removed = vault.purge_deleted_before(100);

    assert_eq!(removed.len(), 1);
    assert_eq!(removed[0].0, 1);
    assert_eq!(removed[0].1.id, expired_id);
    assert_eq!(vault.entries.len(), 2);
    assert_eq!(vault.entries[0].id, active_id);
    assert_eq!(vault.entries[0].deleted_unix, None);
    assert_eq!(vault.entries[1].id, recent_id);
    assert_eq!(vault.entries[1].deleted_unix, Some(200));
    assert!(vault.updated_unix > 0);
}

fn entry_from_json(value: &serde_json::Value) -> PasswordEntry {
    PasswordEntry {
        id: value["id"].as_u64().unwrap(),
        title: value["title"].as_str().unwrap().to_string(),
        username: value["username"].as_str().unwrap().to_string(),
        password: value["password"].as_str().unwrap().to_string(),
        url: value["url"].as_str().unwrap().to_string(),
        notes: value["notes"].as_str().unwrap().to_string(),
        deleted_unix: value["deleted_unix"].as_u64(),
    }
}

fn note_from_json(value: &serde_json::Value) -> SecureNote {
    SecureNote {
        id: value["id"].as_u64().unwrap(),
        title: value["title"].as_str().unwrap().to_string(),
        body: value["body"].as_str().unwrap().to_string(),
        deleted_unix: value["deleted_unix"].as_u64(),
    }
}

fn vault_from_json(text: &str) -> Result<Vault, String> {
    let value: serde_json::Value = serde_json::from_str(text).map_err(|error| error.to_string())?;
    let legacy = value
        .get("entries")
        .map(|entries| entries.as_array().unwrap().iter().map(entry_from_json).collect::<Vec<_>>());
    let items = value.get("items").map(|items| {
        items
            .as_array()
            .unwrap()
            .iter()
            .map(|item| match item["type"].as_str().unwrap() {
                "password" => VaultItem::Password(entry_from_json(&item["data"])),
                _ => VaultItem::SecureNote(note_from_json(&item["data"])),
            })
            .collect::<Vec<_>>()
    });
    Vault::from_payload_fields(
        value["format_version"].as_u64().unwrap() as u32,
        value["created_unix"].as_u64().unwrap(),
        value["updated_unix"].as_u64().unwrap(),
        legacy,
        items,
    )
}

fn entry_json(entry: &PasswordEntry) -> serde_json::Value {
    let mut map = serde_json::Map::new();
    map.insert("id".into(), entry.id.into());
    map.insert("title".into(), entry.title.clone().into());
    map.insert("username".into(), entry.username.clone().into());
    map.insert("password".into(), entry.password.clone().into());
    map.insert("url".into(), entry.url.clone().into());
    map.insert("notes".into(), entry.notes.clone().into());
    map.insert("deleted_unix".into(), entry.deleted_unix.into());
    serde_json::Value::Object(map)
}

fn note_json(note: &SecureNote) -> serde_json::Value {
    let mut map = serde_json::Map::new();
    map.insert("id".into(), note.id.into());
    map.insert("title".into(), note.title.clone().into());
    map.insert("body".into(), note.body.clone().into());
    map.insert("deleted_unix".into(), note.deleted_unix.into());
    serde_json::Value::Object(map)
}

fn vault_to_json(vault: &Vault) -> String {
    let items: Vec<String> = vault
        .payload_items()
        .iter()
        .map(|item| {
            let (kind, data) = match item {
                VaultItemRef::Password(entry) => ("password", entry_json(entry)),
                VaultItemRef::SecureNote(note) => ("secure_note", note_json(note)),
            };
            format!(
                "{{\"type\":{},\"data\":{}}}",
                serde_json::to_string(kind).unwrap(),
                serde_json::to_string(&data).unwrap()
            )
        })
        .collect();
    format!(
        "{{\"format_version\":{},\"created_unix\":{},\"updated_unix\":{},\"items\":[{}]}}",
        CURRENT_VAULT_FORMAT_VERSION,
        vault.created_unix,
        vault.updated_unix,
        items.join(",")
    )
}

#[test]
fn payload_items_round_trip_through_tagged_json_items() {
    let mut vault = Vault::new();

    vault
        .add_password_entry(
            "Serialized login".into(),
            "user@example.test".into(),
            "test-secret".into(),
            "https://example.test".into(),
            "test notes".into(),
        )
        .unwrap();

    vault.notes.push(SecureNote {
        id: 2,
        title: "Recovery codes".into(),
        body: "encrypted note contents".into(),
        deleted_unix: None,
    });

    let serialized = vault_to_json(&vault);

    assert!(serialized.contains("\"format_version\":2"));
    assert!(serialized.contains("\"items\":[{\"type\":\"password\",\"data\":"));
    assert!(serialized.contains("\"type\":\"secure_note\""));
    assert!(!serialized.contains("\"entries\":"));

    let reopened = vault_from_json(&serialized).unwrap();

    assert_eq!(reopened, vault);
}

#[test]
fn version_one_payload_fields_become_current_items() {
    let legacy = r#"{
        "format_version": 1,
        "created_unix": 10,
        "updated_unix": 20,
        "entries": [
            {
                "id": 7,
                "title": "Legacy login",
                "username": "legacy-user",
                "password": "legacy-password",
                "url": "https://legacy.example",
                "notes": "legacy notes",
                "deleted_unix": null
            }
        ]
    }"#;

    let vault = vault_from_json(legacy).unwrap();

    assert_eq!(vault.format_version, CURRENT_VAULT_FORMAT_VERSION);
    assert_eq!(vault.created_unix, 10);
    assert_eq!(vault.updated_unix, 20);
    assert_eq!(vault.entries.len(), 1);
    assert_eq!(vault.entries[0].id, 7);
    assert_eq!(vault.entries[0].title, "Legacy login");
    assert_eq!(vault.entries[0].password, "legacy-password");
    assert!(vault.notes.is_empty());

    let migrated = vault_to_json(&vault);
    assert!(migrated.contains("\"format_version\":2"));
    assert!(migrated.contains("\"type\":\"password\""));
    assert!(!migrated.contains("\"entries\":"));
}

#[test]
fn unknown_payload_versions_are_refused_when_read() {
    let unsupported = r#"{
        "format_version": 99,
        "created_unix": 0,
        "updated_unix": 0,
        "items": []
    }"#;

    let error = vault_from_json(unsupported).unwrap_err();
    assert_eq!(error, "unsupported vault payload format version 99");
}

#[test]
fn mixed_payload_formats_are_rejected() {
    assert_eq!(
        Vault::from_payload_fields(1, 0, 0, None, Some(Vec::new())).unwrap_err(),
        "vault format 1 cannot contain generic items"
    );
    assert_eq!(
        Vault::from_payload_fields(2, 0, 0, Some(Vec::new()), None).unwrap_err(),
        "vault format 2 cannot contain legacy entries"
    );
}

#[test]
fn missing_entries_report_their_id() {
    let mut vault = Vault::new_at(5);
    assert_eq!(
        vault.update_password_entry_at(42, String::new(), String::new(), String::new(), String::new(), String::new(), 9).unwrap_err(),
        "password entry #42 was not found"
    );
    assert_eq!(vault.restore_password_entry_at(7, 9).unwrap_err(), "deleted password entry #7 was not found");
    assert_eq!(vault.updated_unix, 5);
}

#[test]
fn timestamped_operations_use_the_given_time() {
    let mut vault = Vault::new_at(10);
    assert_eq!(vault.created_unix, 10);
    let id = vault
        .add_password_entry_at("A".into(), "u".into(), "p".into(), String::new(), String::new(), 11)
        .unwrap();
    assert_eq!(vault.updated_unix, 11);
    assert_eq!(vault.move_password_entry_to_deleted_at(id, 12).unwrap(), 12);
    assert_eq!(vault.entries[0].deleted_unix, Some(12));
    vault.restore_password_entry_at(id, 13).unwrap();
    assert_eq!(vault.entries[0].deleted_unix, None);
    assert_eq!(vault.updated_unix, 13);
    assert!(vault.permanently_delete_all_deleted_entries_at(14).is_empty());
    assert_eq!(vault.updated_unix, 13);
}

#[test]
fn rolling_back_an_emptied_recently_deleted_restores_entries() {
    let mut vault = Vault::new_at(1);
    vault.entries.push(entry(1, "a", "x", Some(5)));
    vault.entries.push(entry(2, "b", "y", None));
    vault.entries.push(entry(3, "c", "z", Some(6)));
    let removed = vault.permanently_delete_all_deleted_entries_at(9);
    assert_eq!(vault.entries.len(), 1);
    for (index, removed_entry) in removed.into_iter().rev() {
        vault.entries.insert(index, removed_entry);
    }
    let ids: Vec<u64> = vault.entries.iter().map(|e| e.id).collect();
    assert_eq!(ids, vec![1, 2, 3]);
}

#[test]
fn payload_items_list_entries_then_notes() {
    let mut vault = Vault::new_at(1);
    vault.entries.push(entry(1, "a", "x", None));
    vault.notes.push(SecureNote { id: 2, title: "n".into(), body: "b".into(), deleted_unix: None });
    let items = vault.payload_items();
    assert_eq!(items.len(), 2);
    assert!(matches!(items[0], VaultItemRef::Password(e) if e.id == 1));
    assert!(matches!(items[1], VaultItemRef::SecureNote(n) if n.id == 2));
}

#[test]
fn id_space_exhaustion_is_reported() {
    let mut vault = Vault::new_at(1);
    vault.entries.push(entry(u64::MAX, "a", "x", None));
    assert_eq!(
        vault.add_password_entry("b".into(), String::new(), String::new(), String::new(), String::new()).unwrap_err(),
        "vault entry ID space exhausted"
    );
}

#[test]
fn restoring_brings_a_deleted_entry_back_with_its_data() {
    let mut vault = Vault::new();
    let id = vault
        .add_password_entry("Site".into(), "me".into(), "pw".into(), String::new(), String::new())
        .unwrap();
    vault.move_password_entry_to_deleted(id).unwrap();
    assert!(vault.restore_password_entry(id).is_ok());
    assert_eq!(vault.entries[0].deleted_unix, None);
    assert_eq!(vault.entries[0].password, "pw");
    assert_eq!(
        vault.restore_password_entry(id).unwrap_err(),
        format!("deleted password entry #{id} was not found")
    );
}
