pub mod cipher_state;
pub mod handshake;
pub mod state;
pub mod symmetric_state;

pub use state::{HandshakeState, NoiseSession};

use vstd::prelude::*;
use vstd::string::*;

verus! {

/// Failures of the secure channel.
#[derive(Debug, Clone, Copy, PartialEq, Eq, Structural)]
pub enum SecurityError {
    InvalidHandshake,
    ReplayDetected,
    KeyDerivationFailed,
    CipherFailure,
    ConstantTimeVerificationFailed,
}

/// The text with which a secure-channel failure is reported.
pub open spec fn security_error_message(e: SecurityError) -> Seq<char> {
    match e {
        SecurityError::InvalidHandshake => "invalid handshake sequence"@,
        SecurityError::ReplayDetected => "replay detected"@,
        SecurityError::KeyDerivationFailed => "key derivation failed"@,
        SecurityError::CipherFailure => "cipher operation failed"@,
        SecurityError::ConstantTimeVerificationFailed => "constant-time verification failed"@,
    }
}

impl SecurityError {
    /// The text with which this failure is reported.
    pub fn message(&self) -> (r: String)
        ensures
            r@ == security_error_message(*self),
    {
        match self {
            SecurityError::InvalidHandshake => String::from_str("invalid handshake sequence"),
            SecurityError::ReplayDetected => String::from_str("replay detected"),
            SecurityError::KeyDerivationFailed => String::from_str("key derivation failed"),
            SecurityError::CipherFailure => String::from_str("cipher operation failed"),
            SecurityError::ConstantTimeVerificationFailed => String::from_str(
                "constant-time verification failed",
            ),
        }
    }
}

} // verus!
