use vault_core::{Entry, EntryType, KdfParams, Vault, VaultError, KEY_LEN, TAG_LEN};

const TEST_PARAMS: KdfParams = KdfParams { memory_kib: 8, iterations: 1, parallelism: 1 };

#[test]
fn created_vault_can_be_unlocked() {
    let created = Vault::create(b"correct horse", TEST_PARAMS).unwrap();
    let expected = *created.dek().expose();
    let manifest = created.manifest().clone();
    drop(created);

    let opened = Vault::unlock(manifest, b"correct horse").unwrap();
    assert_eq!(opened.dek().expose(), &expected);
}

#[test]
fn wrong_password_is_rejected() {
    let created = Vault::create(b"correct horse", TEST_PARAMS).unwrap();

    assert!(matches!(
        Vault::unlock(created.manifest().clone(), b"incorrect horse"),
        Err(VaultError::AuthenticationFailed)
    ));
}

#[test]
fn changing_the_password_preserves_the_dek() {
    let mut vault = Vault::create(b"old password", TEST_PARAMS).unwrap();
    let dek_before = *vault.dek().expose();

    vault.change_master_password(b"new password").unwrap();
    let manifest = vault.manifest().clone();
    drop(vault);

    let reopened = Vault::unlock(manifest.clone(), b"new password").unwrap();
    assert_eq!(reopened.dek().expose(), &dek_before);
    assert!(Vault::unlock(manifest, b"old password").is_err());
}

#[test]
fn manifest_on_disk_contains_no_plaintext_key() {
    let vault = Vault::create(b"correct horse", TEST_PARAMS).unwrap();
    let dek = *vault.dek().expose();
    let manifest = vault.manifest();
    assert!(!manifest.wrapped_dek.ciphertext.windows(dek.len()).any(|w| w == dek));
    assert_eq!(manifest.wrapped_dek.ciphertext.len(), KEY_LEN + TAG_LEN);
}

#[test]
fn tampering_with_the_wrapped_dek_is_detected() {
    let vault = Vault::create(b"correct horse", TEST_PARAMS).unwrap();
    let mut manifest = vault.manifest().clone();
    manifest.wrapped_dek.ciphertext[0] ^= 0x01;

    assert!(Vault::unlock(manifest, b"correct horse").is_err());
}

#[test]
fn creating_with_invalid_params_is_a_key_derivation_error() {
    let params = KdfParams { memory_kib: 8, iterations: 0, parallelism: 1 };
    assert!(matches!(Vault::create(b"pw", params), Err(VaultError::KeyDerivation)));
}

#[test]
fn unlocking_a_corrupted_manifest_looks_like_a_wrong_password() {
    let vault = Vault::create(b"pw", TEST_PARAMS).unwrap();
    let mut manifest = vault.manifest().clone();
    manifest.magic = "SOMETHING-ELSE".to_string();
    assert!(matches!(Vault::unlock(manifest, b"pw"), Err(VaultError::AuthenticationFailed)));
}

#[test]
fn unlocking_a_future_manifest_is_refused() {
    let vault = Vault::create(b"pw", TEST_PARAMS).unwrap();
    let mut manifest = vault.manifest().clone();
    manifest.format_version = 2;
    assert!(matches!(
        Vault::unlock(manifest, b"pw"),
        Err(VaultError::UnsupportedFormatVersion { found: 2, supported: 1 })
    ));
}

#[test]
fn unlocking_with_a_different_vault_id_fails() {
    let vault = Vault::create(b"pw", TEST_PARAMS).unwrap();
    let mut manifest = vault.manifest().clone();
    manifest.vault_id[15] ^= 0x01;
    assert!(matches!(Vault::unlock(manifest, b"pw"), Err(VaultError::AuthenticationFailed)));
}

#[test]
fn changing_the_password_moves_to_the_current_baseline() {
    let mut vault = Vault::create(b"old", TEST_PARAMS).unwrap();
    assert!(vault.needs_kdf_upgrade());
    let id = vault.manifest().vault_id;
    let old_salt = vault.manifest().kdf.salt;
    vault.change_master_password(b"new").unwrap();
    assert_eq!(vault.manifest().kdf_params(), KdfParams::current());
    assert!(!vault.needs_kdf_upgrade());
    assert_eq!(vault.manifest().vault_id, id);
    assert_ne!(vault.manifest().kdf.salt, old_salt);
}

#[test]
fn fewer_passes_or_lanes_than_the_baseline_need_an_upgrade() {
    let fewer_passes = Vault::create(b"pw", KdfParams { memory_kib: 65536, iterations: 1, parallelism: 4 }).unwrap();
    assert!(fewer_passes.needs_kdf_upgrade());
    let fewer_lanes = Vault::create(b"pw", KdfParams { memory_kib: 65536, iterations: 3, parallelism: 1 }).unwrap();
    assert!(fewer_lanes.needs_kdf_upgrade());
    let stronger = Vault::create(b"pw", KdfParams { memory_kib: 65536, iterations: 4, parallelism: 4 }).unwrap();
    assert!(!stronger.needs_kdf_upgrade());
}

#[test]
fn listing_hides_tombstones() {
    let live = Entry::new(EntryType::Login, "dev");
    let mut dead = Entry::new(EntryType::Note, "dev");
    dead.mark_deleted();
    let other = Entry::new(EntryType::Card, "dev");
    let ids = (live.id, other.id);
    let shown = Vault::live_entries(vec![live, dead, other]);
    assert_eq!(shown.len(), 2);
    assert_eq!(shown[0].id, ids.0);
    assert_eq!(shown[1].id, ids.1);
}
