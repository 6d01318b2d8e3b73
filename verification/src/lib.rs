//! Cryptographic core and vault format for the Tessera password manager.
//!
//! The key hierarchy: master password + salt, through Argon2id, give the
//! key-encryption key (KEK); the KEK wraps a random data-encryption key
//! (DEK); the DEK seals every entry record with XChaCha20-Poly1305, bound by
//! associated data to its vault, its entry id and its format version.
//!
//! Reading and writing files is left to the caller: this crate builds and
//! checks the values that go into the vault files and comes out of them.
pub mod aead;
pub mod clock;
pub mod encoding;
pub mod entry;
pub mod error;
pub mod ids;
pub mod kdf;
pub mod key;
pub mod manifest;
pub mod store;
pub mod vault;

pub use aead::{key_from_plaintext, open, seal, seal_with_nonce, unwrap_dek, wrap_dek, Sealed, MAX_PLAINTEXT_LEN, NONCE_LEN, TAG_LEN};
pub use encoding::{decode_base64, decode_base64_array, encode_base64};
pub use entry::{Entry, EntryType, FieldValue};
pub use error::{Result, VaultError};
pub use ids::{parse_id, ID_LEN};
pub use kdf::{derive_kek, generate_salt, KdfParams, SALT_LEN};
pub use key::{SecretKey, KEY_LEN};
pub use manifest::{KdfSection, Manifest, SealedSection, ARGON_VERSION, FORMAT_VERSION, MAGIC};
pub use store::{entry_aad, entry_file_name, open_entry, record_file_id, same_id, seal_entry, tombstone, tombstone_at, EntryRecord};
pub use vault::Vault;
