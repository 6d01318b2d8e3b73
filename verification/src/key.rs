use vstd::prelude::*;
use rand_core::{OsRng, RngCore};
use zeroize::Zeroize;

verus! {

/// Length of all symmetric keys in this crate, in bytes.
pub const KEY_LEN: usize = 32;

/// Fills a fresh array with bytes from the operating system CSPRNG.
///
/// Calls `rand_core::OsRng::fill_bytes`. Nothing is claimed of the bytes:
/// they come from the operating system. `fill_bytes` panics when the OS
/// random source reports an error; that case is not excluded here.
#[verifier::external_body]
pub(crate) fn os_random<const N: usize>() -> (bytes: [u8; N]) {
    let mut bytes = [0u8; N];
    OsRng.fill_bytes(&mut bytes);
    bytes
}

/// Overwrites key bytes with zeroes.
///
/// Calls `zeroize::Zeroize::zeroize` on the array, which writes a zero to
/// every element through a volatile write.
#[verifier::external_body]
pub(crate) fn wipe_array<const N: usize>(bytes: &mut [u8; N])
    ensures
        forall|i: int| 0 <= i < N ==> final(bytes)@[i] == 0u8,
    opens_invariants none
    no_unwind
{
    bytes.zeroize();
}

/// Overwrites a byte vector with zeroes and empties it.
///
/// Calls `zeroize::Zeroize::zeroize` on the vector, which zeroes every
/// element and the spare capacity, then clears the vector (length 0).
#[verifier::external_body]
pub(crate) fn wipe_vec(bytes: &mut Vec<u8>)
    ensures
        final(bytes)@.len() == 0,
{
    bytes.zeroize();
}

/// A 256-bit symmetric key.
///
/// The backing bytes are overwritten with zeroes when the value is dropped.
pub struct SecretKey {
    bytes: [u8; KEY_LEN],
}

impl View for SecretKey {
    type V = Seq<u8>;

    closed spec fn view(&self) -> Seq<u8> {
        self.bytes@
    }
}

impl SecretKey {
    /// Wraps existing key bytes.
    pub fn from_bytes(bytes: [u8; KEY_LEN]) -> (k: Self)
        ensures
            k@ == bytes@,
    {
        Self { bytes }
    }

    /// Generates a new key from the operating system CSPRNG.
    pub fn generate() -> (k: Self)
        ensures
            k@.len() == KEY_LEN,
    {
        Self { bytes: os_random::<KEY_LEN>() }
    }

    /// Borrows the raw key material.
    ///
    /// Deliberately named `expose` so that every call site reads as a
    /// conscious decision rather than an accessor.
    pub fn expose(&self) -> (b: &[u8; KEY_LEN])
        ensures
            b@ == self@,
    {
        &self.bytes
    }

    /// The redacted debug representation: never shows key material.
    pub fn debug_string(&self) -> (s: String)
        ensures
            s@ == "SecretKey(***)"@,
    {
        "SecretKey(***)".to_owned()
    }
}

impl Drop for SecretKey {
    fn drop(&mut self)
        opens_invariants none
        no_unwind
    {
        wipe_array(&mut self.bytes);
    }
}

} // verus!
