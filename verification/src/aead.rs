use vstd::prelude::*;
use chacha20poly1305::aead::{Aead, KeyInit, Payload};
use chacha20poly1305::{XChaCha20Poly1305, XNonce};

use crate::error::{Result, VaultError};
use crate::key::{os_random, wipe_vec, SecretKey, KEY_LEN};

verus! {

/// XChaCha20 nonce length, in bytes.
pub const NONCE_LEN: usize = 24;

/// Poly1305 authentication tag length, in bytes.
pub const TAG_LEN: usize = 16;

/// Plaintexts must be shorter than this many bytes (64 * (2^32 - 1)).
pub const MAX_PLAINTEXT_LEN: u64 = 274_877_906_880;

#[verifier::external_type_specification]
#[verifier::external_body]
pub struct ExAeadError(chacha20poly1305::aead::Error);

/// The XChaCha20-Poly1305 ciphertext (tag appended) of `msg` under `key`,
/// `nonce` and associated data `aad`.
pub uninterp spec fn aead_seal(key: Seq<u8>, nonce: Seq<u8>, aad: Seq<u8>, msg: Seq<u8>) -> Seq<u8>;

/// The XChaCha20-Poly1305 decryption of `ciphertext`: `None` when the tag
/// does not authenticate it under `key`, `nonce` and `aad`.
pub uninterp spec fn aead_open(key: Seq<u8>, nonce: Seq<u8>, aad: Seq<u8>, ciphertext: Seq<u8>) -> Option<Seq<u8>>;

/// `ciphertext` is what sealing `msg` under `key`, `nonce` and `aad` gives.
pub open spec fn sealed_from(key: Seq<u8>, nonce: Seq<u8>, aad: Seq<u8>, msg: Seq<u8>, ciphertext: Seq<u8>) -> bool {
    msg.len() < MAX_PLAINTEXT_LEN && ciphertext == aead_seal(key, nonce, aad, msg)
}

/// Encrypts with `chacha20poly1305::XChaCha20Poly1305`.
///
/// Calls `KeyInit::new` and `Aead::encrypt` with a `Payload`. The contract
/// claims what the crate's source shows: the call fails exactly when the
/// plaintext has `64 * (2^32 - 1)` bytes or more, and the output is the
/// encrypted plaintext followed by the 16-byte tag. The output buffer is
/// allocated with `Vec::with_capacity(len + 16)`, so lengths beyond
/// `isize::MAX - 16` are left out by `requires`.
#[verifier::external_body]
fn xchacha_encrypt(
    key: &[u8; KEY_LEN],
    nonce: &[u8; NONCE_LEN],
    aad: &[u8],
    msg: &[u8],
) -> (r: core::result::Result<Vec<u8>, chacha20poly1305::aead::Error>)
    requires
        msg@.len() + TAG_LEN <= isize::MAX,
    ensures
        r.is_ok() <==> msg@.len() < MAX_PLAINTEXT_LEN,
        r matches Ok(c) ==> c@ == aead_seal(key@, nonce@, aad@, msg@),
        r matches Ok(c) ==> c@.len() == msg@.len() + TAG_LEN,
{
    XChaCha20Poly1305::new(key.into()).encrypt(XNonce::from_slice(nonce), Payload { msg, aad })
}

/// Decrypts with `chacha20poly1305::XChaCha20Poly1305`.
///
/// Calls `KeyInit::new` and `Aead::decrypt` with a `Payload`. The contract
/// claims: the result is the value named `aead_open`; a successful result is
/// the ciphertext without its 16-byte tag, so 16 bytes shorter; and, as the
/// AEAD interface documents, decrypting what `encrypt` produced under the
/// same key, nonce and associated data gives back the plaintext.
#[verifier::external_body]
fn xchacha_decrypt(
    key: &[u8; KEY_LEN],
    nonce: &[u8; NONCE_LEN],
    aad: &[u8],
    ciphertext: &[u8],
) -> (r: core::result::Result<Vec<u8>, chacha20poly1305::aead::Error>)
    ensures
        match r {
            Ok(p) => aead_open(key@, nonce@, aad@, ciphertext@) == Some(p@),
            Err(_) => aead_open(key@, nonce@, aad@, ciphertext@) is None,
        },
        r matches Ok(p) ==> p@.len() + TAG_LEN == ciphertext@.len(),
        forall|m: Seq<u8>|
            sealed_from(key@, nonce@, aad@, m, ciphertext@) ==> (r is Ok && r->Ok_0@ == m),
{
    XChaCha20Poly1305::new(key.into()).decrypt(XNonce::from_slice(nonce), Payload { msg: ciphertext, aad })
}

/// A ciphertext together with the nonce it was produced with.
///
/// The tag is appended to `ciphertext` by the AEAD implementation.
#[derive(Debug, Clone, PartialEq, Eq)]
pub struct Sealed {
    pub nonce: [u8; NONCE_LEN],
    pub ciphertext: Vec<u8>,
}

/// Encrypts `plaintext` under `key` with the given nonce, binding it to `aad`.
pub fn seal_with_nonce(key: &SecretKey, aad: &[u8], plaintext: &[u8], nonce: [u8; NONCE_LEN]) -> (r: Result<Sealed>)
    requires
        plaintext@.len() + TAG_LEN <= isize::MAX,
    ensures
        r is Ok <==> plaintext@.len() < MAX_PLAINTEXT_LEN,
        r matches Err(e) ==> e == VaultError::Malformed,
        r matches Ok(s) ==> s.nonce == nonce && sealed_from(key@, nonce@, aad@, plaintext@, s.ciphertext@),
        r matches Ok(s) ==> s.ciphertext@.len() == plaintext@.len() + TAG_LEN,
{
    match xchacha_encrypt(key.expose(), &nonce, aad, plaintext) {
        Ok(ciphertext) => Ok(Sealed { nonce, ciphertext }),
        Err(_) => Err(VaultError::Malformed),
    }
}

/// Encrypts `plaintext`, binding it to `aad`.
///
/// A fresh random nonce is generated on every call. With a 192-bit nonce the
/// probability of a collision is negligible, so no counter state is needed.
pub fn seal(key: &SecretKey, aad: &[u8], plaintext: &[u8]) -> (r: Result<Sealed>)
    requires
        plaintext@.len() + TAG_LEN <= isize::MAX,
    ensures
        r is Ok <==> plaintext@.len() < MAX_PLAINTEXT_LEN,
        r matches Err(e) ==> e == VaultError::Malformed,
        r matches Ok(s) ==> sealed_from(key@, s.nonce@, aad@, plaintext@, s.ciphertext@),
        r matches Ok(s) ==> s.ciphertext@.len() == plaintext@.len() + TAG_LEN,
{
    let nonce = os_random::<NONCE_LEN>();
    seal_with_nonce(key, aad, plaintext, nonce)
}

/// Decrypts and authenticates a sealed value.
///
/// Returns `AuthenticationFailed` if the key, the associated data, or the
/// ciphertext do not match. The three cases are deliberately
/// indistinguishable to the caller.
pub fn open(key: &SecretKey, aad: &[u8], sealed: &Sealed) -> (r: Result<Vec<u8>>)
    ensures
        match r {
            Ok(p) => aead_open(key@, sealed.nonce@, aad@, sealed.ciphertext@) == Some(p@),
            Err(e) => e == VaultError::AuthenticationFailed
                && aead_open(key@, sealed.nonce@, aad@, sealed.ciphertext@) is None,
        },
        forall|m: Seq<u8>|
            sealed_from(key@, sealed.nonce@, aad@, m, sealed.ciphertext@) ==> (r is Ok && r->Ok_0@ == m),
{
    match xchacha_decrypt(key.expose(), &sealed.nonce, aad, sealed.ciphertext.as_slice()) {
        Ok(p) => Ok(p),
        Err(_) => Err(VaultError::AuthenticationFailed),
    }
}

/// Encrypts a data-encryption key under the key-encryption key.
pub fn wrap_dek(kek: &SecretKey, aad: &[u8], dek: &SecretKey) -> (r: Result<Sealed>)
    ensures
        r is Ok,
        r matches Ok(s) ==> sealed_from(kek@, s.nonce@, aad@, dek@, s.ciphertext@),
        r matches Ok(s) ==> s.ciphertext@.len() == KEY_LEN + TAG_LEN,
{
    let bytes = dek.expose();
    seal(kek, aad, bytes)
}

/// Turns a decrypted plaintext into a key: it must be exactly `KEY_LEN`
/// bytes, else `Malformed`. The plaintext buffer is wiped either way.
pub fn key_from_plaintext(plaintext: Vec<u8>) -> (r: Result<SecretKey>)
    ensures
        plaintext@.len() == KEY_LEN ==> (r is Ok && r->Ok_0@ == plaintext@),
        plaintext@.len() != KEY_LEN ==> r == Err::<SecretKey, VaultError>(VaultError::Malformed),
{
    let mut plaintext = plaintext;
    let ghost opened = plaintext@;

    if plaintext.len() != KEY_LEN {
        wipe_vec(&mut plaintext);
        return Err(VaultError::Malformed);
    }

    let mut bytes = [0u8; KEY_LEN];
    let mut i: usize = 0;
    while i < KEY_LEN
        invariant
            i <= KEY_LEN,
            plaintext@ == opened,
            opened.len() == KEY_LEN,
            forall|j: int| 0 <= j < i ==> bytes@[j] == opened[j],
        decreases KEY_LEN - i,
    {
        bytes[i] = plaintext[i];
        i += 1;
    }
    assert(bytes@ =~= opened);
    wipe_vec(&mut plaintext);

    Ok(SecretKey::from_bytes(bytes))
}

/// Recovers a data-encryption key.
///
/// This is also how a master password is verified: if the tag validates, the
/// password was correct. No password hash is stored anywhere.
pub fn unwrap_dek(kek: &SecretKey, aad: &[u8], sealed: &Sealed) -> (r: Result<SecretKey>)
    ensures
        match aead_open(kek@, sealed.nonce@, aad@, sealed.ciphertext@) {
            None => r == Err::<SecretKey, VaultError>(VaultError::AuthenticationFailed),
            Some(p) => if p.len() == KEY_LEN {
                r is Ok && r->Ok_0@ == p
            } else {
                r == Err::<SecretKey, VaultError>(VaultError::Malformed)
            },
        },
        forall|d: Seq<u8>|
            d.len() == KEY_LEN && sealed_from(kek@, sealed.nonce@, aad@, d, sealed.ciphertext@)
                ==> (r is Ok && r->Ok_0@ == d),
{
    let plaintext = open(kek, aad, sealed)?;
    key_from_plaintext(plaintext)
}

} // verus!
