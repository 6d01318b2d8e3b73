use uuid::Uuid;
use vault_core::{
    entry_aad, entry_file_name, open_entry, record_file_id, same_id, seal_entry, tombstone, tombstone_at, Entry, EntryType,
    SecretKey, VaultError, FORMAT_VERSION, ID_LEN,
};

/// Builds a login entry with one field, for use as test input.
fn sample_entry() -> Entry {
    let mut entry = Entry::new(EntryType::Login, "test-device");
    entry.set_field("password", "hunter2", "test-device");
    entry
}

fn new_vault_id() -> [u8; ID_LEN] {
    *Uuid::now_v7().as_bytes()
}

const PAYLOAD: &[u8] = b"{\"fields\":{\"password\":{\"value\":\"hunter2\"}}}";

#[test]
fn sealed_entry_can_be_opened_again() {
    let dek = SecretKey::generate();
    let vault_id = new_vault_id();
    let original = sample_entry();

    let record = seal_entry(&dek, &vault_id, &original.id, PAYLOAD).unwrap();
    let recovered = open_entry(&dek, &vault_id, &original.id, &record).unwrap();

    assert_eq!(record.id, original.id);
    assert_eq!(record.format_version, FORMAT_VERSION);
    assert_eq!(recovered, PAYLOAD);
    assert!(recovered.windows(7).any(|w| w == b"hunter2"));
}

#[test]
fn opening_with_the_wrong_vault_id_fails() {
    let dek = SecretKey::generate();
    let vault_id = new_vault_id();
    let other_vault_id = new_vault_id();

    let entry = sample_entry();
    let record = seal_entry(&dek, &vault_id, &entry.id, PAYLOAD).unwrap();

    assert!(open_entry(&dek, &other_vault_id, &entry.id, &record).is_err());
}

#[test]
fn entry_written_to_disk_can_be_read_back() {
    let dek = SecretKey::generate();
    let vault_id = new_vault_id();
    let entry = sample_entry();

    let record = seal_entry(&dek, &vault_id, &entry.id, PAYLOAD).unwrap();
    let name = entry_file_name(&entry.id);
    let id = record_file_id(&name).unwrap();
    assert_eq!(id, entry.id);
    assert_eq!(open_entry(&dek, &vault_id, &id, &record).unwrap(), PAYLOAD);
}

#[test]
fn entry_file_does_not_contain_the_plaintext_password() {
    let dek = SecretKey::generate();
    let vault_id = new_vault_id();
    let entry = sample_entry();
    let record = seal_entry(&dek, &vault_id, &entry.id, PAYLOAD).unwrap();
    assert!(!record.ciphertext.windows(7).any(|w| w == b"hunter2"));
    assert!(!record.ciphertext.windows(8).any(|w| w == b"password"));
}

#[test]
fn listing_returns_every_written_entry() {
    let first = sample_entry();
    let second = sample_entry();
    let names = vec![entry_file_name(&first.id), b"vault.tmp".to_vec(), entry_file_name(&second.id)];
    let listed: Vec<[u8; ID_LEN]> = names.iter().filter_map(|n| record_file_id(n)).collect();
    assert_eq!(listed.len(), 2);
    assert_eq!(listed, vec![first.id, second.id]);
}

#[test]
fn deleting_keeps_the_record_as_a_tombstone() {
    let entry = sample_entry();
    let tomb = tombstone(entry.clone(), "test-device").unwrap();
    assert!(tomb.deleted_at.is_some());
    assert!(tomb.fields.is_empty());
    assert_eq!(tomb.version, entry.version + 1);
    assert_eq!(tomb.id, entry.id);
}

#[test]
fn deleting_twice_does_not_bump_the_version_again() {
    let entry = sample_entry();
    let after_first = tombstone(entry, "test-device").unwrap();
    let version = after_first.version;
    assert!(tombstone(after_first, "test-device").is_none());
    assert_eq!(version, 3);
}

#[test]
fn tombstone_records_the_deleting_device_and_time() {
    let entry = sample_entry();
    let tomb = tombstone_at(entry, "other-device", 1_000).unwrap();
    assert_eq!(tomb.last_modified_by, "other-device");
    assert_eq!(tomb.deleted_at, Some(1_000));
    assert_eq!(tomb.updated_at, 1_000);
}

#[test]
fn entry_aad_is_vault_entry_and_version() {
    let vault = Uuid::parse_str("018f2c3a-7b21-7c4e-9f10-2a5d8e6b1c33").unwrap();
    let entry = Uuid::parse_str("018f2c41-b902-7d18-8e44-6c9a01ff3ba7").unwrap();
    let aad = entry_aad(vault.as_bytes(), entry.as_bytes(), 1);
    assert_eq!(aad, format!("{}|{}|{}", vault, entry, 1).into_bytes());
    assert_eq!(aad, b"018f2c3a-7b21-7c4e-9f10-2a5d8e6b1c33|018f2c41-b902-7d18-8e44-6c9a01ff3ba7|1".to_vec());
}

#[test]
fn record_moved_to_another_entry_fails() {
    let dek = SecretKey::generate();
    let vault_id = new_vault_id();
    let mut record = seal_entry(&dek, &vault_id, &sample_entry().id, PAYLOAD).unwrap();
    let other = sample_entry().id;
    record.id = other;
    assert_eq!(open_entry(&dek, &vault_id, &other, &record), Err(VaultError::AuthenticationFailed));
}

#[test]
fn record_with_another_format_version_fails() {
    let dek = SecretKey::generate();
    let vault_id = new_vault_id();
    let entry = sample_entry();
    let mut record = seal_entry(&dek, &vault_id, &entry.id, PAYLOAD).unwrap();
    record.format_version = 2;
    assert!(open_entry(&dek, &vault_id, &entry.id, &record).is_err());
}

#[test]
fn entry_file_name_is_uuid_dot_json() {
    let id = Uuid::parse_str("018f2c41-b902-7d18-8e44-6c9a01ff3ba7").unwrap();
    assert_eq!(entry_file_name(id.as_bytes()), b"018f2c41-b902-7d18-8e44-6c9a01ff3ba7.json".to_vec());
}

#[test]
fn only_uuid_json_names_are_records() {
    assert_eq!(record_file_id(b".json"), None);
    assert_eq!(record_file_id(b"notes.json"), None);
    assert_eq!(record_file_id(b"018f2c41-b902-7d18-8e44-6c9a01ff3ba7.tmp"), None);
    assert_eq!(record_file_id(b"018f2c41-b902-7d18-8e44-6c9a01ff3ba7.jsonx"), None);
    let id = Uuid::parse_str("018f2c41-b902-7d18-8e44-6c9a01ff3ba7").unwrap();
    assert_eq!(record_file_id(b"018f2c41-b902-7d18-8e44-6c9a01ff3ba7.json"), Some(*id.as_bytes()));
    assert_eq!(record_file_id(b"018f2c41b9027d188e446c9a01ff3ba7.json"), Some(*id.as_bytes()));
}

#[test]
fn a_swapped_record_does_not_open_under_another_entry() {
    let dek = SecretKey::generate();
    let vault_id = new_vault_id();
    let a = sample_entry();
    let b = sample_entry();
    // Entry b's genuine record, found under entry a's file name.
    let record_b = seal_entry(&dek, &vault_id, &b.id, PAYLOAD).unwrap();
    assert_eq!(open_entry(&dek, &vault_id, &a.id, &record_b), Err(VaultError::AuthenticationFailed));
    // Relabelled with a's id, it still fails: its associated data names b.
    let mut relabelled = record_b.clone();
    relabelled.id = a.id;
    assert_eq!(open_entry(&dek, &vault_id, &a.id, &relabelled), Err(VaultError::AuthenticationFailed));
    assert_eq!(open_entry(&dek, &vault_id, &b.id, &record_b).unwrap(), PAYLOAD);
}

#[test]
fn same_id_compares_all_bytes() {
    let a = [3u8; ID_LEN];
    let mut b = a;
    assert!(same_id(&a, &b));
    b[15] = 4;
    assert!(!same_id(&a, &b));
}
