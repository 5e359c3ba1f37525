//! Derivation of a 256-bit key from a secret's name and a salt, with Argon2id.
use vstd::prelude::*;
use crate::error::VaultError;
use vstd::utf8::encode_utf8;

verus! {

/// Length in bytes of a derived key.
pub const KEY_LEN: usize = 32;

/// Shortest salt the derivation accepts.
pub const MIN_SALT_LEN: usize = 8;

/// Longest password or salt the derivation accepts.
pub const MAX_INPUT_LEN: usize = 0xFFFF_FFFF;

#[verifier::external_type_specification]
#[verifier::external_body]
pub struct ExArgon2Error(argon2::Error);

/// The 32-byte output of Argon2id (version 0x13, default costs) on a password
/// and a salt.
pub uninterp spec fn argon2id_key(password: Seq<u8>, salt: Seq<u8>) -> Seq<u8>;

/// Whether the derivation accepts a password and a salt of these lengths.
pub open spec fn kdf_accepts(password_len: nat, salt_len: nat) -> bool {
    &&& password_len <= MAX_INPUT_LEN
    &&& MIN_SALT_LEN <= salt_len <= MAX_INPUT_LEN
}

/// Relies on argon2's `Argon2::default().hash_password_into` into a 32-byte
/// buffer: it fails only on a password longer than `MAX_PWD_LEN` or a salt
/// outside `MIN_SALT_LEN..=MAX_SALT_LEN`, and is deterministic otherwise.
#[verifier::external_body]
fn argon2_hash_into_key(password: &[u8], salt: &[u8]) -> (r: Result<[u8; 32], argon2::Error>)
    ensures
        r is Ok <==> kdf_accepts(password@.len(), salt@.len()),
        r is Ok ==> r->Ok_0@ == argon2id_key(password@, salt@),
{
    let mut key = [0u8; 32];
    argon2::Argon2::default().hash_password_into(password, salt, &mut key).map(|_| key)
}

/// Derives the key for `identifier` under `salt`: the same pair always gives
/// the same key.
pub fn derive_key(identifier: &str, salt: &[u8]) -> (r: Result<[u8; 32], VaultError>)
    ensures
        r is Ok <==> kdf_accepts(encode_utf8(identifier@).len(), salt@.len()),
        r is Ok ==> r->Ok_0@ == argon2id_key(encode_utf8(identifier@), salt@),
        r is Err ==> r->Err_0 == VaultError::EncryptionError,
{
    match argon2_hash_into_key(identifier.as_bytes(), salt) {
        Ok(key) => Ok(key),
        Err(_) => Err(VaultError::EncryptionError),
    }
}

} // verus!
