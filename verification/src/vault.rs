use vstd::prelude::*;

use crate::aead::{aead_open, sealed_from, unwrap_dek, wrap_dek, Sealed, NONCE_LEN};
use crate::entry::Entry;
use crate::error::{Result, VaultError};
use crate::kdf::{argon2_costs_accepted, argon2id_output, derivation_succeeds, derive_kek, generate_salt, kek_bytes, KdfParams};
use crate::key::{SecretKey, KEY_LEN};
use crate::manifest::{dek_aad_bytes, Manifest, FORMAT_VERSION, MAGIC};

verus! {

/// The password opens the manifest to the data-encryption key `dek`: the key
/// derivation succeeds with the recorded parameters and salt, and the wrapped
/// DEK is `dek` sealed under the derived key, bound to the vault's identity.
pub open spec fn unlocks_with(manifest: Manifest, password: Seq<u8>, dek: Seq<u8>) -> bool {
    &&& derivation_succeeds(password.len(), manifest.spec_kdf_params())
    &&& sealed_from(
        kek_bytes(password, manifest.kdf.salt@, manifest.spec_kdf_params()),
        manifest.wrapped_dek.nonce@,
        dek_aad_bytes(manifest.vault_id@, manifest.format_version),
        dek,
        manifest.wrapped_dek.ciphertext@,
    )
}

/// What `Vault::unlock` gives for a readable manifest: the error of the key
/// derivation or of the unwrapping, or the unwrapped key bytes.
pub open spec fn unlock_outcome(manifest: Manifest, password: Seq<u8>) -> core::result::Result<Seq<u8>, VaultError> {
    if !derivation_succeeds(password.len(), manifest.spec_kdf_params()) {
        Err(VaultError::KeyDerivation)
    } else {
        match aead_open(
            kek_bytes(password, manifest.kdf.salt@, manifest.spec_kdf_params()),
            manifest.wrapped_dek.nonce@,
            dek_aad_bytes(manifest.vault_id@, manifest.format_version),
            manifest.wrapped_dek.ciphertext@,
        ) {
            None => Err(VaultError::AuthenticationFailed),
            Some(p) => if p.len() == KEY_LEN { Ok(p) } else { Err(VaultError::Malformed) },
        }
    }
}

/// The password opens a manifest with the KDF parameters recorded in that
/// manifest: the derivation must accept the recorded memory, passes and lanes,
/// and the wrapped DEK is sealed under the Argon2id output of the password,
/// the recorded salt and exactly those recorded costs. Old vaults stay
/// openable after the baseline is raised.
pub proof fn lemma_unlock_uses_recorded_params(manifest: Manifest, password: Seq<u8>, dek: Seq<u8>)
    ensures
        unlocks_with(manifest, password, dek) == ({
            &&& argon2_costs_accepted(manifest.kdf.memory_kib, manifest.kdf.iterations, manifest.kdf.parallelism)
            &&& password.len() <= 0xFFFF_FFFF
            &&& sealed_from(
                argon2id_output(
                    password,
                    manifest.kdf.salt@,
                    manifest.kdf.memory_kib,
                    manifest.kdf.iterations,
                    manifest.kdf.parallelism,
                ),
                manifest.wrapped_dek.nonce@,
                dek_aad_bytes(manifest.vault_id@, manifest.format_version),
                dek,
                manifest.wrapped_dek.ciphertext@,
            )
        }),
        unlock_outcome(manifest, password) == (if !(argon2_costs_accepted(
            manifest.kdf.memory_kib,
            manifest.kdf.iterations,
            manifest.kdf.parallelism,
        ) && password.len() <= 0xFFFF_FFFF) {
            Err(VaultError::KeyDerivation)
        } else {
            match aead_open(
                argon2id_output(
                    password,
                    manifest.kdf.salt@,
                    manifest.kdf.memory_kib,
                    manifest.kdf.iterations,
                    manifest.kdf.parallelism,
                ),
                manifest.wrapped_dek.nonce@,
                dek_aad_bytes(manifest.vault_id@, manifest.format_version),
                manifest.wrapped_dek.ciphertext@,
            ) {
                None => Err(VaultError::AuthenticationFailed),
                Some(p) => if p.len() == KEY_LEN { Ok(p) } else { Err(VaultError::Malformed) },
            }
        }),
{
}

/// What `create` writes is what `unlock` reads: a manifest that records the
/// parameters `params` the key was derived with, and whose wrapped DEK is
/// sealed under the Argon2id output for those parameters, opens with the same
/// password, whatever the current baseline is.
pub proof fn lemma_created_manifest_unlocks(manifest: Manifest, password: Seq<u8>, dek: Seq<u8>, params: KdfParams)
    requires
        manifest.kdf.memory_kib == params.memory_kib,
        manifest.kdf.iterations == params.iterations,
        manifest.kdf.parallelism == params.parallelism,
        argon2_costs_accepted(params.memory_kib, params.iterations, params.parallelism),
        password.len() <= 0xFFFF_FFFF,
        sealed_from(
            argon2id_output(password, manifest.kdf.salt@, params.memory_kib, params.iterations, params.parallelism),
            manifest.wrapped_dek.nonce@,
            dek_aad_bytes(manifest.vault_id@, manifest.format_version),
            dek,
            manifest.wrapped_dek.ciphertext@,
        ),
    ensures
        unlocks_with(manifest, password, dek),
{
}

/// An unlocked vault: its manifest and its data-encryption key.
///
/// Holding this value means the data-encryption key is live in memory. Drop it
/// to lock: the DEK is zeroised automatically.
pub struct Vault {
    manifest: Manifest,
    dek: SecretKey,
}

impl Vault {
    pub closed spec fn spec_manifest(&self) -> Manifest {
        self.manifest
    }

    pub closed spec fn spec_dek(&self) -> Seq<u8> {
        self.dek@
    }

    /// Creates the manifest and keys of a new vault, unlocked.
    ///
    /// The salt, the DEK, the nonce and the vault id are fresh random values;
    /// whichever they are, the new password opens the manifest to the DEK.
    pub fn create(password: &[u8], params: KdfParams) -> (r: Result<Self>)
        ensures
            r is Ok <==> derivation_succeeds(password@.len(), params),
            r matches Err(e) ==> e == VaultError::KeyDerivation,
            r matches Ok(v) ==> unlocks_with(v.spec_manifest(), password@, v.spec_dek()),
            r matches Ok(v) ==> v.spec_dek().len() == KEY_LEN,
            r matches Ok(v) ==> v.spec_manifest().is_fresh(
                params,
                v.spec_manifest().kdf.salt@,
                Sealed { nonce: v.spec_manifest().wrapped_dek.nonce, ciphertext: v.spec_manifest().wrapped_dek.ciphertext },
            ),
            r matches Ok(v) ==> v.spec_manifest().kdf.memory_kib == params.memory_kib
                && v.spec_manifest().kdf.iterations == params.iterations
                && v.spec_manifest().kdf.parallelism == params.parallelism,
            r matches Ok(v) ==> sealed_from(
                argon2id_output(
                    password@,
                    v.spec_manifest().kdf.salt@,
                    params.memory_kib,
                    params.iterations,
                    params.parallelism,
                ),
                v.spec_manifest().wrapped_dek.nonce@,
                dek_aad_bytes(v.spec_manifest().vault_id@, v.spec_manifest().format_version),
                v.spec_dek(),
                v.spec_manifest().wrapped_dek.ciphertext@,
            ),
    {
        let salt = generate_salt();
        let kek = derive_kek(password, &salt, params)?;
        let dek = SecretKey::generate();

        // The vault id is generated inside the manifest, so build it with a
        // placeholder wrapped key first, then seal against its real identity.
        let mut manifest = Manifest::new(params, salt, &Sealed { nonce: [0u8; NONCE_LEN], ciphertext: Vec::new() });

        let aad = manifest.dek_aad();
        let sealed = wrap_dek(&kek, aad.as_slice(), &dek)?;
        manifest.wrapped_dek.nonce = sealed.nonce;
        manifest.wrapped_dek.ciphertext = sealed.ciphertext;

        Ok(Self { manifest, dek })
    }

    /// Opens a vault from its parsed manifest.
    ///
    /// A wrong password and a corrupted manifest are indistinguishable by
    /// design: both surface as `AuthenticationFailed`. That covers a manifest
    /// that is not a Tessera manifest at all and a tampered wrapped key. A
    /// manifest of a newer format is refused with `UnsupportedFormatVersion`,
    /// so that the user learns to update rather than to retype the password.
    pub fn unlock(manifest: Manifest, password: &[u8]) -> (r: Result<Self>)
        ensures
            manifest.magic@ != MAGIC@ ==> r == Err::<Vault, VaultError>(VaultError::AuthenticationFailed),
            manifest.magic@ == MAGIC@ && manifest.format_version > FORMAT_VERSION ==> r == Err::<Vault, VaultError>(
                manifest.validation_error(),
            ),
            manifest.readable() ==> match unlock_outcome(manifest, password@) {
                Ok(d) => r is Ok && r->Ok_0.spec_dek() == d && r->Ok_0.spec_manifest() == manifest,
                Err(e) => r is Err && r->Err_0 == e,
            },
            forall|d: Seq<u8>|
                d.len() == KEY_LEN && manifest.readable() && unlocks_with(manifest, password@, d) ==> (r is Ok
                    && r->Ok_0.spec_dek() == d),
            manifest.readable() && !(argon2_costs_accepted(
                manifest.kdf.memory_kib,
                manifest.kdf.iterations,
                manifest.kdf.parallelism,
            ) && password@.len() <= 0xFFFF_FFFF) ==> r == Err::<Vault, VaultError>(VaultError::KeyDerivation),
            forall|d: Seq<u8>|
                d.len() == KEY_LEN && manifest.readable() && argon2_costs_accepted(
                    manifest.kdf.memory_kib,
                    manifest.kdf.iterations,
                    manifest.kdf.parallelism,
                ) && password@.len() <= 0xFFFF_FFFF && sealed_from(
                    argon2id_output(
                        password@,
                        manifest.kdf.salt@,
                        manifest.kdf.memory_kib,
                        manifest.kdf.iterations,
                        manifest.kdf.parallelism,
                    ),
                    manifest.wrapped_dek.nonce@,
                    dek_aad_bytes(manifest.vault_id@, manifest.format_version),
                    d,
                    manifest.wrapped_dek.ciphertext@,
                ) ==> (r is Ok && r->Ok_0.spec_dek() == d),
    {
        let manifest = match manifest.validate() {
            Ok(m) => m,
            Err(VaultError::Malformed) => return Err(VaultError::AuthenticationFailed),
            Err(e) => return Err(e),
        };
        let kek = derive_kek(password, &manifest.kdf.salt, manifest.kdf_params())?;
        let aad = manifest.dek_aad();
        let wrapped = manifest.wrapped_dek();
        let dek = unwrap_dek(&kek, aad.as_slice(), &wrapped)?;
        Ok(Self { manifest, dek })
    }

    /// Re-wraps the data-encryption key under a new master password, with the
    /// current baseline KDF parameters and a fresh salt.
    ///
    /// Entry records are untouched: this is O(1), not O(number of entries).
    /// On error nothing changes.
    pub fn change_master_password(&mut self, new_password: &[u8]) -> (r: Result<()>)
        ensures
            r is Ok <==> derivation_succeeds(new_password@.len(), KdfParams::spec_current()),
            r matches Err(e) ==> e == VaultError::KeyDerivation && *final(self) == *old(self),
            final(self).spec_dek() == old(self).spec_dek(),
            r is Ok ==> unlocks_with(final(self).spec_manifest(), new_password@, old(self).spec_dek()),
            r is Ok ==> final(self).spec_manifest().spec_kdf_params() == KdfParams::spec_current(),
            r is Ok ==> ({
                let m0 = old(self).spec_manifest();
                let m1 = final(self).spec_manifest();
                &&& m1.magic == m0.magic
                &&& m1.format_version == m0.format_version
                &&& m1.vault_id == m0.vault_id
                &&& m1.created_at == m0.created_at
                &&& m1.kdf.algorithm == m0.kdf.algorithm
                &&& m1.kdf.argon_version == m0.kdf.argon_version
                &&& m1.wrapped_dek.algorithm == m0.wrapped_dek.algorithm
                &&& m1.kdf_upgraded_at == m0.kdf_upgraded_at
            }),
    {
        let params = KdfParams::current();
        let salt = generate_salt();
        let kek = derive_kek(new_password, &salt, params)?;
        let aad = self.manifest.dek_aad();
        let sealed = wrap_dek(&kek, aad.as_slice(), &self.dek)?;

        self.manifest.kdf.memory_kib = params.memory_kib;
        self.manifest.kdf.iterations = params.iterations;
        self.manifest.kdf.parallelism = params.parallelism;
        self.manifest.kdf.salt = salt;
        self.manifest.wrapped_dek.nonce = sealed.nonce;
        self.manifest.wrapped_dek.ciphertext = sealed.ciphertext;
        Ok(())
    }

    /// True if this vault was created with weaker parameters than the current
    /// baseline: less memory, fewer passes or fewer lanes.
    pub fn needs_kdf_upgrade(&self) -> (b: bool)
        ensures
            b == ({
                let recorded = self.spec_manifest().spec_kdf_params();
                let baseline = KdfParams::spec_current();
                ||| recorded.memory_kib < baseline.memory_kib
                ||| recorded.iterations < baseline.iterations
                ||| recorded.parallelism < baseline.parallelism
            }),
    {
        let recorded = self.manifest.kdf_params();
        let baseline = KdfParams::current();
        recorded.memory_kib < baseline.memory_kib || recorded.iterations < baseline.iterations
            || recorded.parallelism < baseline.parallelism
    }

    /// The vault's manifest.
    pub fn manifest(&self) -> (m: &Manifest)
        ensures
            *m == self.spec_manifest(),
    {
        &self.manifest
    }

    /// The data-encryption key.
    pub fn dek(&self) -> (k: &SecretKey)
        ensures
            k@ == self.spec_dek(),
    {
        &self.dek
    }

    /// Keeps the live entries, hiding tombstones, in their order.
    pub fn live_entries(entries: Vec<Entry>) -> (live: Vec<Entry>)
        ensures
            live@ == entries@.filter(|e: Entry| e.deleted_at is None),
    {
        let ghost all = entries@;
        let ghost keep = |e: Entry| e.deleted_at is None;
        let mut live: Vec<Entry> = Vec::new();
        for e in it: entries
            invariant
                it.seq() == all,
                keep == (|e: Entry| e.deleted_at is None),
                live@ == all.take(it.index() as int).filter(keep),
        {
            let ghost idx = it.index() as int;
            let ghost cur = e;
            let ghost before = live@;
            proof {
                assert(cur == all[idx]);
                assert(before == all.take(idx).filter(keep));
            }
            if e.deleted_at.is_none() {
                live.push(e);
            }
            proof {
                let t = all.take(idx + 1);
                reveal_with_fuel(Seq::<_>::filter, 1);
                assert(t.drop_last() =~= all.take(idx));
                assert(t.len() == idx + 1);
                assert(t.last() == cur);
                assert(t.filter(keep) == if keep(cur) { before.push(cur) } else { before });
                assert(keep(cur) == (cur.deleted_at is None));
                assert(live@ =~= t.filter(keep));
            }
        }
        assert(all.take(all.len() as int) =~= all);
        live
    }
}

} // verus!
