use chacha20poly1305::aead::{Aead, KeyInit, Payload};
use chacha20poly1305::{XChaCha20Poly1305, XNonce};
use vault_core::{key_from_plaintext, open, seal, seal_with_nonce, unwrap_dek, wrap_dek, SecretKey, VaultError, KEY_LEN, NONCE_LEN, TAG_LEN};

fn key() -> SecretKey {
    SecretKey::from_bytes([0x11; KEY_LEN])
}

#[test]
fn roundtrip_returns_original_plaintext() {
    let sealed = seal(&key(), b"vault|entry", b"hunter2").unwrap();
    assert_eq!(open(&key(), b"vault|entry", &sealed).unwrap(), b"hunter2");
}

#[test]
fn ciphertext_is_longer_than_plaintext_by_the_tag() {
    let sealed = seal(&key(), b"", b"hunter2").unwrap();
    assert_eq!(sealed.ciphertext.len(), b"hunter2".len() + TAG_LEN);
}

#[test]
fn wrong_key_fails() {
    let sealed = seal(&key(), b"aad", b"secret").unwrap();
    let other = SecretKey::from_bytes([0x22; KEY_LEN]);
    assert!(open(&other, b"aad", &sealed).is_err());
}

#[test]
fn wrong_aad_fails() {
    let sealed = seal(&key(), b"entry-a", b"secret").unwrap();
    assert!(open(&key(), b"entry-b", &sealed).is_err());
}

#[test]
fn tampered_ciphertext_fails() {
    let mut sealed = seal(&key(), b"aad", b"secret").unwrap();
    sealed.ciphertext[0] ^= 0x01;
    assert!(open(&key(), b"aad", &sealed).is_err());
}

#[test]
fn nonces_are_not_repeated() {
    let a = seal(&key(), b"aad", b"secret").unwrap();
    let b = seal(&key(), b"aad", b"secret").unwrap();
    assert_ne!(a.nonce, b.nonce);
    assert_ne!(a.ciphertext, b.ciphertext);
}

#[test]
fn dek_survives_wrap_and_unwrap() {
    let dek = SecretKey::generate();
    let wrapped = wrap_dek(&key(), b"vault-id", &dek).unwrap();
    let recovered = unwrap_dek(&key(), b"vault-id", &wrapped).unwrap();
    assert_eq!(recovered.expose(), dek.expose());
}

#[test]
fn unwrapping_with_wrong_kek_fails() {
    let dek = SecretKey::generate();
    let wrapped = wrap_dek(&key(), b"vault-id", &dek).unwrap();
    let wrong = SecretKey::from_bytes([0x99; KEY_LEN]);
    assert!(unwrap_dek(&wrong, b"vault-id", &wrapped).is_err());
}

#[test]
fn open_failure_is_authentication_failed() {
    let sealed = seal(&key(), b"aad", b"secret").unwrap();
    let other = SecretKey::from_bytes([0x22; KEY_LEN]);
    assert_eq!(open(&other, b"aad", &sealed), Err(VaultError::AuthenticationFailed));
}

#[test]
fn seal_with_a_given_nonce_matches_the_cipher() {
    let nonce = [0x07u8; NONCE_LEN];
    let sealed = seal_with_nonce(&key(), b"aad", b"hunter2", nonce).unwrap();
    let expected = XChaCha20Poly1305::new((&[0x11u8; KEY_LEN]).into())
        .encrypt(XNonce::from_slice(&nonce), Payload { msg: b"hunter2", aad: b"aad" })
        .unwrap();
    assert_eq!(sealed.nonce, nonce);
    assert_eq!(sealed.ciphertext, expected);
    assert_ne!(&sealed.ciphertext[..7], b"hunter2");
}

#[test]
fn sealing_twice_with_one_nonce_is_deterministic() {
    let nonce = [0x01u8; NONCE_LEN];
    let a = seal_with_nonce(&key(), b"aad", b"secret", nonce).unwrap();
    let b = seal_with_nonce(&key(), b"aad", b"secret", nonce).unwrap();
    assert_eq!(a, b);
}

#[test]
fn empty_plaintext_seals_to_a_bare_tag() {
    let sealed = seal(&key(), b"aad", b"").unwrap();
    assert_eq!(sealed.ciphertext.len(), TAG_LEN);
    assert_eq!(open(&key(), b"aad", &sealed).unwrap(), Vec::<u8>::new());
}

#[test]
fn unwrapping_a_non_key_plaintext_is_malformed() {
    let sealed = seal(&key(), b"vault-id", b"not a 32-byte key").unwrap();
    assert!(matches!(unwrap_dek(&key(), b"vault-id", &sealed), Err(VaultError::Malformed)));
}

#[test]
fn unwrapping_with_wrong_kek_is_authentication_failed() {
    let dek = SecretKey::from_bytes([0x33; KEY_LEN]);
    let wrapped = wrap_dek(&key(), b"vault-id", &dek).unwrap();
    let wrong = SecretKey::from_bytes([0x98; KEY_LEN]);
    assert!(matches!(unwrap_dek(&wrong, b"vault-id", &wrapped), Err(VaultError::AuthenticationFailed)));
}

#[test]
fn wrapped_dek_is_key_plus_tag_long() {
    let dek = SecretKey::from_bytes([0x44; KEY_LEN]);
    let wrapped = wrap_dek(&key(), b"vault-id", &dek).unwrap();
    assert_eq!(wrapped.ciphertext.len(), KEY_LEN + TAG_LEN);
}

#[test]
fn plaintext_of_key_length_becomes_a_key() {
    let key = key_from_plaintext(vec![0x5Au8; KEY_LEN]).unwrap();
    assert_eq!(key.expose(), &[0x5Au8; KEY_LEN]);
}

#[test]
fn plaintext_of_other_length_is_malformed() {
    assert!(matches!(key_from_plaintext(vec![1u8; KEY_LEN - 1]), Err(VaultError::Malformed)));
    assert!(matches!(key_from_plaintext(vec![1u8; KEY_LEN + 1]), Err(VaultError::Malformed)));
    assert!(matches!(key_from_plaintext(Vec::new()), Err(VaultError::Malformed)));
}
