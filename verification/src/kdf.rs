use vstd::prelude::*;
use argon2::{Algorithm, Argon2, Params, Version};

use crate::error::{Result, VaultError};
use crate::key::{os_random, SecretKey, KEY_LEN};

verus! {

/// Length of the KDF salt, in bytes.
pub const SALT_LEN: usize = 16;

#[verifier::external_type_specification]
#[verifier::external_body]
pub struct ExArgon2Error(argon2::Error);

/// The 32-byte Argon2id (version 0x13) output for a password, a salt and
/// the three cost parameters.
pub uninterp spec fn argon2id_output(
    password: Seq<u8>,
    salt: Seq<u8>,
    memory_kib: u32,
    iterations: u32,
    parallelism: u32,
) -> Seq<u8>;

/// When `argon2::Params::new(m, t, p, Some(32))` accepts its costs: at least
/// 8 KiB and 8 KiB per lane, at least one pass, between 1 and 2^24 - 1 lanes.
pub open spec fn argon2_costs_accepted(memory_kib: u32, iterations: u32, parallelism: u32) -> bool {
    &&& memory_kib >= 8
    &&& memory_kib >= 8 * parallelism
    &&& iterations >= 1
    &&& 1 <= parallelism <= 0xFF_FFFF
}

/// Argon2id key derivation through the `argon2` crate.
///
/// Calls `argon2::Params::new(m, t, p, Some(32))`, `argon2::Argon2::new`
/// with `Argon2id` and `V0x13`, and `Argon2::hash_password_into`. The
/// contract claims: the call succeeds exactly when `Params::new` accepts the
/// costs and the password is at most 2^32 - 1 bytes (the 16-byte salt is
/// always within the salt bounds), and the output is the Argon2id value named
/// `argon2id_output`. `Params::new` computes `8 * p` before it checks `p`,
/// which overflows for `p >= 2^29`; such inputs are left out by `requires`.
/// The block memory is allocated with `vec!`; an allocation failure aborts
/// the process, which no clause here states.
#[verifier::external_body]
fn argon2id_derive(
    password: &[u8],
    salt: &[u8; SALT_LEN],
    memory_kib: u32,
    iterations: u32,
    parallelism: u32,
) -> (r: core::result::Result<[u8; KEY_LEN], argon2::Error>)
    requires
        parallelism <= 0xFF_FFFF,
    ensures
        r.is_ok() <==> (argon2_costs_accepted(memory_kib, iterations, parallelism)
            && password@.len() <= 0xFFFF_FFFF),
        r matches Ok(out) ==> out@ == argon2id_output(password@, salt@, memory_kib, iterations, parallelism),
{
    let params = Params::new(memory_kib, iterations, parallelism, Some(KEY_LEN))?;
    let mut out = [0u8; KEY_LEN];
    Argon2::new(Algorithm::Argon2id, Version::V0x13, params).hash_password_into(password, salt, &mut out)?;
    Ok(out)
}

/// Argon2id parameters recorded in a vault manifest.
///
/// These are stored per-vault rather than hardcoded, so that the recommended
/// cost can be raised over time without making older vaults unopenable.
#[derive(Debug, Clone, Copy, PartialEq, Eq, Structural)]
pub struct KdfParams {
    pub memory_kib: u32,
    pub iterations: u32,
    pub parallelism: u32,
}

impl KdfParams {
    /// The current baseline: m=64 MiB, t=3, p=4. See ADR-0002.
    pub open spec fn spec_current() -> KdfParams {
        KdfParams { memory_kib: 65536, iterations: 3, parallelism: 4 }
    }

    /// The current baseline: m=64 MiB, t=3, p=4. See ADR-0002.
    #[verifier::when_used_as_spec(spec_current)]
    pub fn current() -> (p: KdfParams)
        ensures
            p == KdfParams::spec_current(),
    {
        KdfParams { memory_kib: 65536, iterations: 3, parallelism: 4 }
    }

    /// Whether the `argon2` crate accepts these costs.
    pub open spec fn accepted(self) -> bool {
        argon2_costs_accepted(self.memory_kib, self.iterations, self.parallelism)
    }
}

impl Default for KdfParams {
    fn default() -> (p: Self)
        ensures
            p == KdfParams::spec_current(),
    {
        KdfParams::current()
    }
}

/// The key that `derive_kek` gives for a password, salt and parameters.
pub open spec fn kek_bytes(password: Seq<u8>, salt: Seq<u8>, params: KdfParams) -> Seq<u8> {
    argon2id_output(password, salt, params.memory_kib, params.iterations, params.parallelism)
}

/// Whether `derive_kek` succeeds on a password of this length with these parameters.
pub open spec fn derivation_succeeds(password_len: nat, params: KdfParams) -> bool {
    params.accepted() && password_len <= 0xFFFF_FFFF
}

/// The key-encryption key is the Argon2id output under all three given
/// costs (memory, passes and lanes), the password and the salt: no cost is
/// replaced by a constant.
pub proof fn lemma_kek_uses_every_cost(password: Seq<u8>, salt: Seq<u8>, params: KdfParams)
    ensures
        kek_bytes(password, salt, params) == argon2id_output(
            password,
            salt,
            params.memory_kib,
            params.iterations,
            params.parallelism,
        ),
        derivation_succeeds(password.len(), params) == (argon2_costs_accepted(
            params.memory_kib,
            params.iterations,
            params.parallelism,
        ) && password.len() <= 0xFFFF_FFFF),
{
}

/// Generates a fresh random salt.
pub fn generate_salt() -> (salt: [u8; SALT_LEN])
    ensures
        salt@.len() == SALT_LEN,
{
    os_random::<SALT_LEN>()
}

/// Derives the key-encryption key from a master password.
///
/// The password is borrowed and never copied; the caller owns its lifetime
/// and is responsible for zeroising it. Parameters that `argon2` refuses
/// (including a lane count beyond its maximum) give `KeyDerivation`.
pub fn derive_kek(password: &[u8], salt: &[u8; SALT_LEN], params: KdfParams) -> (r: Result<SecretKey>)
    ensures
        r is Ok <==> derivation_succeeds(password@.len(), params),
        r matches Ok(k) ==> k@ == kek_bytes(password@, salt@, params),
        r matches Err(e) ==> e == VaultError::KeyDerivation,
        r is Ok <==> (argon2_costs_accepted(params.memory_kib, params.iterations, params.parallelism)
            && password@.len() <= 0xFFFF_FFFF),
        r matches Ok(k) ==> k@ == argon2id_output(
            password@,
            salt@,
            params.memory_kib,
            params.iterations,
            params.parallelism,
        ),
{
    if params.parallelism > 0xFF_FFFF {
        return Err(VaultError::KeyDerivation);
    }
    match argon2id_derive(password, salt, params.memory_kib, params.iterations, params.parallelism) {
        Ok(out) => Ok(SecretKey::from_bytes(out)),
        Err(_) => Err(VaultError::KeyDerivation),
    }
}

} // verus!
