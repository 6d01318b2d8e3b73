use vstd::prelude::*;
use vstd::slice::slice_to_vec;

use crate::aead::{Sealed, NONCE_LEN};
use crate::clock::now_unix_nanos;
use crate::encoding::{append_decimal, append_uuid_text, decimal_text, uuid_text, lemma_decimal_text_injective, lemma_uuid_text_injective, lemma_uuid_text_len, SEPARATOR};
use crate::error::{Result, VaultError};
use crate::ids::{is_v7, uuid_now_v7, ID_LEN};
use crate::kdf::{KdfParams, SALT_LEN};

verus! {

/// Identifies the file as a Tessera vault manifest.
pub const MAGIC: &'static str = "TESSERA-VAULT";

/// Highest format version this build can read.
pub const FORMAT_VERSION: u32 = 1;

/// Argon2 version 1.3, as recorded on disk.
pub const ARGON_VERSION: u32 = 19;

/// The KDF section of the manifest.
#[derive(Debug, Clone)]
pub struct KdfSection {
    pub algorithm: String,
    pub argon_version: u32,
    pub memory_kib: u32,
    pub iterations: u32,
    pub parallelism: u32,
    pub salt: [u8; SALT_LEN],
}

/// The wrapped data-encryption key section of the manifest.
#[derive(Debug, Clone)]
pub struct SealedSection {
    pub algorithm: String,
    pub nonce: [u8; NONCE_LEN],
    pub ciphertext: Vec<u8>,
}

/// The plaintext vault manifest.
///
/// Contains no secrets: only the parameters required to *attempt* a key
/// derivation, and the wrapped data-encryption key. Times are nanoseconds
/// since the Unix epoch, UTC.
#[derive(Debug, Clone)]
pub struct Manifest {
    pub magic: String,
    pub format_version: u32,
    pub vault_id: [u8; ID_LEN],
    pub created_at: i128,
    pub kdf: KdfSection,
    pub wrapped_dek: SealedSection,
    pub kdf_upgraded_at: Option<i128>,
}

/// Associated data binding the wrapped DEK to a vault: the UTF-8 text
/// `"<vaultId>|<formatVersion>"`.
pub open spec fn dek_aad_bytes(vault_id: Seq<u8>, format_version: u32) -> Seq<u8> {
    uuid_text(vault_id) + seq![SEPARATOR] + decimal_text(format_version as nat)
}

/// The texts `"argon2id"` and `"xchacha20poly1305"` recorded as algorithms.
pub open spec fn kdf_algorithm_text() -> Seq<char> {
    "argon2id"@
}

pub open spec fn aead_algorithm_text() -> Seq<char> {
    "xchacha20poly1305"@
}

impl Manifest {
    /// The KDF parameters recorded in this manifest.
    pub open spec fn spec_kdf_params(self) -> KdfParams {
        KdfParams {
            memory_kib: self.kdf.memory_kib,
            iterations: self.kdf.iterations,
            parallelism: self.kdf.parallelism,
        }
    }

    /// Whether `validate` accepts the manifest: the magic text matches and
    /// the format version is one this build can read.
    pub open spec fn readable(self) -> bool {
        self.magic@ == MAGIC@ && self.format_version <= FORMAT_VERSION
    }

    /// The error `validate` gives for a manifest it refuses.
    pub open spec fn validation_error(self) -> VaultError {
        if self.magic@ != MAGIC@ {
            VaultError::Malformed
        } else {
            VaultError::UnsupportedFormatVersion { found: self.format_version, supported: FORMAT_VERSION }
        }
    }

    /// A manifest for a fresh vault, with the given identity and creation time.
    pub open spec fn is_fresh(self, params: KdfParams, salt: Seq<u8>, wrapped_dek: Sealed) -> bool {
        &&& self.magic@ == MAGIC@
        &&& self.format_version == FORMAT_VERSION
        &&& is_v7(self.vault_id@)
        &&& self.kdf.algorithm@ == kdf_algorithm_text()
        &&& self.kdf.argon_version == ARGON_VERSION
        &&& self.spec_kdf_params() == params
        &&& self.kdf.salt@ == salt
        &&& self.wrapped_dek.algorithm@ == aead_algorithm_text()
        &&& self.wrapped_dek.nonce == wrapped_dek.nonce
        &&& self.wrapped_dek.ciphertext@ == wrapped_dek.ciphertext@
        &&& self.kdf_upgraded_at is None
    }

    /// Builds a manifest for a freshly created vault.
    pub fn new(params: KdfParams, salt: [u8; SALT_LEN], wrapped_dek: &Sealed) -> (m: Self)
        ensures
            m.is_fresh(params, salt@, *wrapped_dek),
    {
        let vault_id = uuid_now_v7();
        let created_at = now_unix_nanos();
        Self {
            magic: MAGIC.to_owned(),
            format_version: FORMAT_VERSION,
            vault_id,
            created_at,
            kdf: KdfSection {
                algorithm: "argon2id".to_owned(),
                argon_version: ARGON_VERSION,
                memory_kib: params.memory_kib,
                iterations: params.iterations,
                parallelism: params.parallelism,
                salt,
            },
            wrapped_dek: SealedSection {
                algorithm: "xchacha20poly1305".to_owned(),
                nonce: wrapped_dek.nonce,
                ciphertext: slice_to_vec(wrapped_dek.ciphertext.as_slice()),
            },
            kdf_upgraded_at: None,
        }
    }

    /// The KDF parameters this vault was created with.
    ///
    /// Always derived from the file, never from the current baseline, so that
    /// older vaults stay openable after the recommended cost is raised.
    pub fn kdf_params(&self) -> (p: KdfParams)
        ensures
            p == self.spec_kdf_params(),
    {
        KdfParams {
            memory_kib: self.kdf.memory_kib,
            iterations: self.kdf.iterations,
            parallelism: self.kdf.parallelism,
        }
    }

    /// The wrapped data-encryption key.
    pub fn wrapped_dek(&self) -> (s: Sealed)
        ensures
            s.nonce == self.wrapped_dek.nonce,
            s.ciphertext@ == self.wrapped_dek.ciphertext@,
    {
        Sealed {
            nonce: self.wrapped_dek.nonce,
            ciphertext: slice_to_vec(self.wrapped_dek.ciphertext.as_slice()),
        }
    }

    /// Associated data binding the wrapped DEK to this specific vault.
    pub fn dek_aad(&self) -> (aad: Vec<u8>)
        ensures
            aad@ == dek_aad_bytes(self.vault_id@, self.format_version),
    {
        let mut aad = Vec::new();
        append_uuid_text(&mut aad, &self.vault_id);
        aad.push(SEPARATOR);
        append_decimal(&mut aad, self.format_version);
        assert(aad@ =~= dek_aad_bytes(self.vault_id@, self.format_version));
        aad
    }

    /// Checks a parsed manifest: the magic text must match, and a format
    /// version newer than this build supports is refused.
    pub fn validate(self) -> (r: Result<Self>)
        ensures
            self.magic@ != MAGIC@ ==> r == Err::<Manifest, VaultError>(VaultError::Malformed),
            self.magic@ == MAGIC@ && self.format_version > FORMAT_VERSION ==> r == Err::<Manifest, VaultError>(
                VaultError::UnsupportedFormatVersion { found: self.format_version, supported: FORMAT_VERSION },
            ),
            self.readable() ==> r == Ok::<Manifest, VaultError>(self),
    {
        let expected = MAGIC.to_owned();
        if self.magic != expected {
            return Err(VaultError::Malformed);
        }
        if self.format_version > FORMAT_VERSION {
            return Err(VaultError::UnsupportedFormatVersion {
                found: self.format_version,
                supported: FORMAT_VERSION,
            });
        }
        Ok(self)
    }
}

/// The DEK's associated data names its vault and format version: two
/// manifests whose associated data agree have the same vault id and version.
pub proof fn lemma_dek_aad_injective(id1: Seq<u8>, v1: u32, id2: Seq<u8>, v2: u32)
    requires
        id1.len() == ID_LEN,
        id2.len() == ID_LEN,
        dek_aad_bytes(id1, v1) == dek_aad_bytes(id2, v2),
    ensures
        id1 == id2,
        v1 == v2,
{
    lemma_uuid_text_len(id1);
    lemma_uuid_text_len(id2);
    let a = dek_aad_bytes(id1, v1);
    let b = dek_aad_bytes(id2, v2);
    assert(a.subrange(0, 36) =~= uuid_text(id1));
    assert(b.subrange(0, 36) =~= uuid_text(id2));
    lemma_uuid_text_injective(id1, id2);
    assert(a.subrange(37, a.len() as int) =~= decimal_text(v1 as nat));
    assert(b.subrange(37, b.len() as int) =~= decimal_text(v2 as nat));
    lemma_decimal_text_injective(v1 as nat, v2 as nat);
}

} // verus!
