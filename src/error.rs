//! The faults the vault engine tells apart.
use crate::header::HeaderError;
use vstd::prelude::*;

verus! {

/// Why a vault operation failed.
#[derive(Clone, Copy, Debug, PartialEq, Eq, Structural)]
pub enum VaultError {
    /// A non-empty file that does not begin with `KEVI` (plaintext is refused).
    UnsupportedFormat,
    /// A structural fault of the header.
    Header(HeaderError),
    /// Key-derivation parameters or inputs that Argon2id refuses.
    InvalidKdfParams,
    /// Wrong key, tampered header or body, or a truncated tag: one opaque fault.
    DecryptionFailed,
    /// A plaintext too long for one AES-GCM call.
    PlaintextTooLong,
    /// The system's random source failed.
    CsprngFailed,
}

} // verus!
