use vstd::prelude::*;
use chacha20poly1305::aead::{Aead, KeyInit, Payload};
use chacha20poly1305::{ChaCha20Poly1305, Key, Nonce};
use crate::crypto::CryptoError;

verus! {

#[verifier::external_type_specification]
#[verifier::external_body]
pub struct ExAeadError(chacha20poly1305::aead::Error);

/// The ciphertext (with its tag appended) that ChaCha20-Poly1305 makes of a plaintext.
pub uninterp spec fn chacha_seal(key: Seq<u8>, nonce: Seq<u8>, plaintext: Seq<u8>, aad: Seq<u8>) -> Seq<u8>;

/// The plaintext that ChaCha20-Poly1305 recovers from a ciphertext, or none when the tag
/// does not match.
pub uninterp spec fn chacha_open(key: Seq<u8>, nonce: Seq<u8>, ciphertext: Seq<u8>, aad: Seq<u8>) -> Option<Seq<u8>>;

/// Whether ChaCha20-Poly1305 accepts a plaintext of this length: fewer than `u32::MAX`
/// blocks of 64 bytes.
pub open spec fn chacha_accepts_len(len: nat) -> bool {
    len / 64 < 0xFFFF_FFFF
}

/// `ChaCha20Poly1305::encrypt`: the ciphertext is the plaintext's length plus a 16-byte
/// tag, and opening it with the same key, nonce and associated data gives the plaintext
/// back. It fails only for a plaintext of `u32::MAX` blocks or more.
#[verifier::external_body]
fn chacha_encrypt(key: &[u8; 32], nonce: &[u8; 12], plaintext: &[u8], aad: &[u8]) -> (r: Result<
    Vec<u8>,
    chacha20poly1305::aead::Error,
>)
    ensures
        r is Ok <==> chacha_accepts_len(plaintext@.len()),
        r matches Ok(c) ==> c@ == chacha_seal(key@, nonce@, plaintext@, aad@),
        r matches Ok(c) ==> c@.len() == plaintext@.len() + 16,
        r matches Ok(c) ==> chacha_open(key@, nonce@, c@, aad@) == Some(plaintext@),
{
    let cipher = ChaCha20Poly1305::new(Key::from_slice(key));
    cipher.encrypt(Nonce::from_slice(nonce), Payload { msg: plaintext, aad })
}

/// `ChaCha20Poly1305::decrypt`: the plaintext when the tag verifies, an error otherwise.
#[verifier::external_body]
fn chacha_decrypt(key: &[u8; 32], nonce: &[u8; 12], ciphertext: &[u8], aad: &[u8]) -> (r: Result<
    Vec<u8>,
    chacha20poly1305::aead::Error,
>)
    ensures
        r matches Ok(p) ==> chacha_open(key@, nonce@, ciphertext@, aad@) == Some(p@),
        r is Err ==> chacha_open(key@, nonce@, ciphertext@, aad@) is None,
{
    let cipher = ChaCha20Poly1305::new(Key::from_slice(key));
    cipher.decrypt(Nonce::from_slice(nonce), Payload { msg: ciphertext, aad })
}

pub fn encrypt_chacha20poly1305(
    key_bytes: &[u8; 32],
    nonce_bytes: &[u8; 12],
    plaintext: &[u8],
    aad: &[u8],
) -> (r: Result<Vec<u8>, CryptoError>)
    ensures
        r is Ok <==> chacha_accepts_len(plaintext@.len()),
        r matches Ok(c) ==> c@ == chacha_seal(key_bytes@, nonce_bytes@, plaintext@, aad@),
        r matches Ok(c) ==> c@.len() == plaintext@.len() + 16,
        r matches Ok(c) ==> chacha_open(key_bytes@, nonce_bytes@, c@, aad@) == Some(plaintext@),
        r matches Err(e) ==> e == CryptoError::EncryptionFailed,
{
    match chacha_encrypt(key_bytes, nonce_bytes, plaintext, aad) {
        Ok(c) => Ok(c),
        Err(_) => Err(CryptoError::EncryptionFailed),
    }
}

pub fn decrypt_chacha20poly1305(
    key_bytes: &[u8; 32],
    nonce_bytes: &[u8; 12],
    ciphertext: &[u8],
    aad: &[u8],
) -> (r: Result<Vec<u8>, CryptoError>)
    ensures
        r matches Ok(p) ==> chacha_open(key_bytes@, nonce_bytes@, ciphertext@, aad@) == Some(p@),
        r is Err ==> chacha_open(key_bytes@, nonce_bytes@, ciphertext@, aad@) is None,
        r matches Err(e) ==> e == CryptoError::DecryptionFailed,
{
    match chacha_decrypt(key_bytes, nonce_bytes, ciphertext, aad) {
        Ok(p) => Ok(p),
        Err(_) => Err(CryptoError::DecryptionFailed),
    }
}

} // verus!
