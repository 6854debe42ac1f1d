pub mod aead;
pub mod kdf;
pub mod kx;
pub mod rng;
pub mod sign;

use vstd::prelude::*;

verus! {

/// Failures of the cryptographic primitives.
#[derive(Debug, Clone, Copy, PartialEq, Eq, Structural)]
pub enum CryptoError {
    InvalidKeyLength,
    EncryptionFailed,
    DecryptionFailed,
    RngFailure,
    SignatureFailure,
}

} // verus!
