use vstd::prelude::*;

verus! {

/// Errors returned by the vault core.
///
/// Messages must never contain key material, passwords, or decrypted
/// entry contents: errors end up in logs and bug reports.
#[derive(Debug, Clone, Copy, PartialEq, Eq, Structural)]
pub enum VaultError {
    /// Incorrect master password or corrupted vault.
    AuthenticationFailed,
    /// Key derivation failed.
    KeyDerivation,
    /// The vault was written by a newer format than this build can read.
    UnsupportedFormatVersion { found: u32, supported: u32 },
    /// Vault data is malformed.
    Malformed,
}

/// Result type of the vault core.
pub type Result<T> = core::result::Result<T, VaultError>;

} // verus!
