use uuid::Uuid;
use vault_core::{Entry, EntryType};

#[test]
fn new_entry_starts_at_version_one_without_fields() {
    let entry = Entry::new(EntryType::Login, "device-a");
    assert_eq!(entry.version, 1);
    assert_eq!(entry.created_at, entry.updated_at);
    assert!(entry.deleted_at.is_none());
    assert!(entry.fields.is_empty());
    assert!(entry.tags.is_empty());
    assert!(!entry.favorite);
    assert_eq!(entry.last_modified_by, "device-a");
    assert_eq!(entry.entry_type, EntryType::Login);
    assert_eq!(Uuid::from_bytes(entry.id).get_version_num(), 7);
}

#[test]
fn field_reads_back_what_was_written() {
    let mut entry = Entry::new(EntryType::Login, "device-a");
    entry.set_field("username", "alice", "device-b");
    assert_eq!(entry.get_field("username"), Some("alice"));
    assert_eq!(entry.get_field("password"), None);
    assert_eq!(entry.version, 2);
    assert_eq!(entry.last_modified_by, "device-b");
}

#[test]
fn overwriting_a_field_keeps_one_copy() {
    let mut entry = Entry::new(EntryType::Login, "dev");
    entry.set_field_at("password", "one", "dev", 10);
    entry.set_field_at("title", "GitHub", "dev", 11);
    entry.set_field_at("password", "two", "dev", 12);
    assert_eq!(entry.get_field("password"), Some("two"));
    assert_eq!(entry.get_field("title"), Some("GitHub"));
    assert_eq!(entry.fields.len(), 2);
    assert_eq!(entry.version, 4);
    assert_eq!(entry.updated_at, 12);
}

#[test]
fn later_duplicate_name_wins_on_read() {
    let mut entry = Entry::new(EntryType::Login, "dev");
    entry.set_field_at("a", "first", "dev", 1);
    let mut copy = entry.fields[0].clone();
    copy.1.value = "second".to_string();
    entry.fields.push(copy);
    assert_eq!(entry.get_field("a"), Some("second"));
    entry.set_field_at("a", "third", "dev", 2);
    assert_eq!(entry.get_field("a"), Some("third"));
}

#[test]
fn marking_deleted_clears_fields_and_bumps_version() {
    let mut entry = Entry::new(EntryType::Note, "dev");
    entry.set_field("note", "secret", "dev");
    entry.mark_deleted_at(99);
    assert!(entry.fields.is_empty());
    assert_eq!(entry.version, 3);
    assert_eq!(entry.deleted_at, Some(99));
    assert_eq!(entry.updated_at, 99);
    assert_eq!(entry.get_field("note"), None);
}

#[test]
fn known_type_names_map_to_their_variants() {
    for (name, t) in [
        ("login", EntryType::Login),
        ("note", EntryType::Note),
        ("card", EntryType::Card),
        ("identity", EntryType::Identity),
        ("totp", EntryType::Totp),
        ("passkey", EntryType::Passkey),
    ] {
        assert_eq!(EntryType::from_name(name), t);
        assert_eq!(t.name(), name);
    }
}

#[test]
fn unknown_type_is_kept_word_for_word() {
    let t = EntryType::from_name("wifi");
    assert_eq!(t, EntryType::Other("wifi".to_string()));
    assert_eq!(t.name(), "wifi");
    let entry = Entry::new(t, "dev");
    assert_eq!(entry.entry_type.name(), "wifi");
}
