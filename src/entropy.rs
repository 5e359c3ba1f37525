//! Fixed-length random buffers drawn from the operating system's generator.
use vstd::prelude::*;
use rand_core::TryRngCore;
use crate::error::VaultError;

verus! {

#[verifier::external_type_specification]
#[verifier::external_body]
pub struct ExOsError(rand_core::OsError);

/// Relies on rand_core's `OsRng::try_fill_bytes`: on success every byte of the
/// buffer of length `n` was written by the operating system's generator.
#[verifier::external_body]
fn os_fill(n: usize) -> (r: Result<Vec<u8>, rand_core::OsError>)
    ensures
        r is Ok ==> r->Ok_0@.len() == n,
{
    let mut buf = vec![0u8; n];
    rand_core::OsRng.try_fill_bytes(&mut buf).map(|_| buf)
}

/// Draws `n` bytes from the operating system's secure generator.
pub fn random_bytes(n: usize) -> (r: Result<Vec<u8>, VaultError>)
    ensures
        r is Ok ==> r->Ok_0@.len() == n,
        r is Err ==> r->Err_0 == VaultError::EntropyError,
{
    match os_fill(n) {
        Ok(v) => Ok(v),
        Err(_) => Err(VaultError::EntropyError),
    }
}

} // verus!
