# vault_core

The cryptographic core and vault format of the Tessera password manager,
written in Verus. Every function in `src/` that holds the project's logic
carries a contract that Verus proves; the small wrappers around outside
crates carry contracts that are assumed, not proved (see below).

## Layout

- `src/key.rs`: `SecretKey`, zeroised on drop; OS randomness.
- `src/kdf.rs`: Argon2id key derivation (`derive_kek`) and `KdfParams`.
- `src/aead.rs`: XChaCha20-Poly1305 sealing and opening, DEK wrapping.
- `src/encoding.rs`: UUID and decimal text, base64, with injectivity lemmas.
- `src/ids.rs`, `src/clock.rs`: UUIDv7 identities and the current time.
- `src/entry.rs`: entries, their field map, versioning and tombstones.
- `src/manifest.rs`: the vault manifest, its validation and the DEK's
  associated data.
- `src/store.rs`: entry records, their associated data, record file names,
  deletion decisions.
- `src/vault.rs`: creating, unlocking and re-keying a vault.
- `app/`: the JSON forms of the vault files (serde) and the reads and
  writes of the vault directory.

Calls into `argon2`, `chacha20poly1305`, `base64`, `uuid`, `time`,
`rand_core` and `zeroize` go through small trusted wrappers
(`#[verifier::external_body]`). Verus takes their contracts on trust; their
doc comments state what is assumed of each outside function.
