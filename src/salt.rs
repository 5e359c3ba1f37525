//! The per-installation master salt: created once, then only ever loaded.
use vstd::prelude::*;
use crate::error::VaultError;
use crate::entropy::random_bytes;
use crate::codec::MASTER_SALT_LEN;

verus! {

/// The master salt to use, and whether it was created by this call (and must
/// then be persisted before any key is derived from it).
pub struct MasterSalt {
    pub bytes: Vec<u8>,
    pub created: bool,
}

/// What resolving the master salt owes, given what the salt file holds
/// (`None` where there is no file), with the result as the salt's bytes and
/// whether they were just created.
pub open spec fn salt_outcome(stored: Option<Seq<u8>>, r: Result<(Seq<u8>, bool), VaultError>) -> bool {
    match stored {
        Some(b) => {
            &&& r is Ok <==> b.len() == MASTER_SALT_LEN
            &&& r is Ok ==> r->Ok_0 == (b, false)
            &&& r is Err ==> r->Err_0 == VaultError::ConfigurationError
        },
        None => {
            &&& r is Ok ==> r->Ok_0.0.len() == MASTER_SALT_LEN && r->Ok_0.1
            &&& r is Err ==> r->Err_0 == VaultError::EntropyError
        },
    }
}

/// The salt file's content as a byte sequence.
pub open spec fn stored_view(stored: Option<Vec<u8>>) -> Option<Seq<u8>> {
    match stored {
        Some(b) => Some(b@),
        None => None,
    }
}

/// A resolved master salt as its bytes and whether they were just created.
pub open spec fn salt_view(r: Result<MasterSalt, VaultError>) -> Result<(Seq<u8>, bool), VaultError> {
    match r {
        Ok(m) => Ok((m.bytes@, m.created)),
        Err(e) => Err(e),
    }
}

/// Resolves the master salt from what the salt file holds (`None` where no
/// file exists). A stored salt of the wrong length is a configuration error
/// and is never replaced; an absent one is drawn fresh.
pub fn get_master_salt(stored: Option<Vec<u8>>) -> (r: Result<MasterSalt, VaultError>)
    ensures
        salt_outcome(stored_view(stored), salt_view(r)),
{
    match stored {
        Some(bytes) => {
            if bytes.len() != MASTER_SALT_LEN {
                return Err(VaultError::ConfigurationError);
            }
            Ok(MasterSalt { bytes, created: false })
        },
        None => {
            match random_bytes(MASTER_SALT_LEN) {
                Ok(bytes) => Ok(MasterSalt { bytes, created: true }),
                Err(e) => Err(e),
            }
        },
    }
}

} // verus!
