use vault_core::{SecretKey, KEY_LEN};

#[test]
fn debug_does_not_leak_key_material() {
    let key = SecretKey::from_bytes([0xAB; KEY_LEN]);
    assert_eq!(key.debug_string(), "SecretKey(***)");
}

#[test]
fn generate_produces_distinct_keys() {
    let a = SecretKey::generate();
    let b = SecretKey::generate();
    assert_ne!(a.expose(), b.expose());
}

#[test]
fn from_bytes_exposes_the_same_bytes() {
    let mut bytes = [0u8; KEY_LEN];
    for (i, b) in bytes.iter_mut().enumerate() {
        *b = i as u8;
    }
    let key = SecretKey::from_bytes(bytes);
    assert_eq!(key.expose(), &bytes);
}
