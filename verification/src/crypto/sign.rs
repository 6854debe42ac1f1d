use vstd::prelude::*;
use ed25519_dalek::{Signature, Signer, SigningKey, Verifier, VerifyingKey};
use crate::crypto::CryptoError;

verus! {

#[verifier::external_type_specification]
#[verifier::external_body]
pub struct ExSignatureError(ed25519_dalek::SignatureError);

/// The Ed25519 verifying key of a signing key.
pub uninterp spec fn ed25519_verifying_key(signing_key: Seq<u8>) -> Seq<u8>;

/// The Ed25519 signature of a message under a signing key.
pub uninterp spec fn ed25519_signature(signing_key: Seq<u8>, message: Seq<u8>) -> Seq<u8>;

/// Whether an Ed25519 signature verifies for a message under a verifying key.
pub uninterp spec fn ed25519_valid(verifying_key: Seq<u8>, message: Seq<u8>, signature: Seq<u8>) -> bool;

/// `SigningKey::from_bytes(..).verifying_key().to_bytes()`.
#[verifier::external_body]
pub fn derive_verifying_key(signing_key_bytes: [u8; 32]) -> (r: [u8; 32])
    ensures
        r@ == ed25519_verifying_key(signing_key_bytes@),
{
    let signing_key = SigningKey::from_bytes(&signing_key_bytes);
    signing_key.verifying_key().to_bytes()
}

/// `SigningKey::sign(..).to_bytes()`; the signature verifies under the matching verifying key.
#[verifier::external_body]
pub fn sign_message(signing_key_bytes: [u8; 32], message: &[u8]) -> (r: [u8; 64])
    ensures
        r@ == ed25519_signature(signing_key_bytes@, message@),
        ed25519_valid(ed25519_verifying_key(signing_key_bytes@), message@, r@),
{
    let signing_key = SigningKey::from_bytes(&signing_key_bytes);
    signing_key.sign(message).to_bytes()
}

/// `VerifyingKey::from_bytes` followed by `Verifier::verify`: success exactly when the
/// signature verifies.
#[verifier::external_body]
fn ed25519_verify(verifying_key_bytes: [u8; 32], message: &[u8], signature_bytes: [u8; 64]) -> (r: Result<
    (),
    ed25519_dalek::SignatureError,
>)
    ensures
        r is Ok <==> ed25519_valid(verifying_key_bytes@, message@, signature_bytes@),
{
    let verifying_key = VerifyingKey::from_bytes(&verifying_key_bytes)?;
    verifying_key.verify(message, &Signature::from_bytes(&signature_bytes))
}

pub fn verify_message(verifying_key_bytes: [u8; 32], message: &[u8], signature_bytes: [u8; 64]) -> (r: Result<
    (),
    CryptoError,
>)
    ensures
        r is Ok <==> ed25519_valid(verifying_key_bytes@, message@, signature_bytes@),
        r matches Err(e) ==> e == CryptoError::SignatureFailure,
{
    match ed25519_verify(verifying_key_bytes, message, signature_bytes) {
        Ok(()) => Ok(()),
        Err(_) => Err(CryptoError::SignatureFailure),
    }
}

} // verus!
