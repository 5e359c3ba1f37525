use vstd::prelude::*;

verus! {

/// The ways a vault operation can fail.
#[derive(Debug, Clone, Copy, PartialEq, Eq, Structural)]
pub enum VaultError {
    /// The value handed to the vault was blank; nothing was written.
    ValidationError,
    /// The persistence backend could not be read or written.
    IoError,
    /// The master salt is missing or has the wrong length.
    ConfigurationError,
    /// A stored record could not be authenticated or decoded.
    DecryptionError,
    /// The operating system's random generator failed.
    EntropyError,
    /// Key derivation or encryption refused its inputs.
    EncryptionError,
}

} // verus!
