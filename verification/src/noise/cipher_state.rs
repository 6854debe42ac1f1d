use vstd::prelude::*;
use crate::crypto::aead::{
    chacha_accepts_len, chacha_open, chacha_seal, decrypt_chacha20poly1305,
    encrypt_chacha20poly1305,
};
use crate::noise::SecurityError;

verus! {

/// A transport cipher: a key and the count of messages it has sealed or opened.
#[derive(Debug, Clone, PartialEq, Eq)]
pub struct CipherState {
    key: [u8; 32],
    nonce: u64,
    has_key: bool,
}

impl CipherState {
    pub closed spec fn spec_key(&self) -> Seq<u8> {
        self.key@
    }

    pub closed spec fn spec_nonce(&self) -> u64 {
        self.nonce
    }

    pub closed spec fn spec_has_key(&self) -> bool {
        self.has_key
    }
}

impl Default for CipherState {
    fn default() -> (r: Self)
        ensures
            !r.spec_has_key(),
            r.spec_nonce() == 0,
            r.spec_key() == Seq::new(32, |i: int| 0u8),
    {
        CipherState { key: [0u8; 32], nonce: 0, has_key: false }
    }
}

/// The 12-byte nonce for a message counter: four zero bytes, then the counter big-endian.
pub open spec fn nonce_bytes(n: u64) -> Seq<u8> {
    seq![
        0u8,
        0u8,
        0u8,
        0u8,
        ((n / 0x100_0000_0000_0000) % 256) as u8,
        ((n / 0x1_0000_0000_0000) % 256) as u8,
        ((n / 0x100_0000_0000) % 256) as u8,
        ((n / 0x1_0000_0000) % 256) as u8,
        ((n / 0x100_0000) % 256) as u8,
        ((n / 0x1_0000) % 256) as u8,
        ((n / 0x100) % 256) as u8,
        (n % 256) as u8,
    ]
}

fn nonce_to_bytes(nonce: u64) -> (r: [u8; 12])
    ensures
        r@ == nonce_bytes(nonce),
{
    let r = [
        0u8,
        0u8,
        0u8,
        0u8,
        ((nonce / 0x100_0000_0000_0000) % 256) as u8,
        ((nonce / 0x1_0000_0000_0000) % 256) as u8,
        ((nonce / 0x100_0000_0000) % 256) as u8,
        ((nonce / 0x1_0000_0000) % 256) as u8,
        ((nonce / 0x100_0000) % 256) as u8,
        ((nonce / 0x1_0000) % 256) as u8,
        ((nonce / 0x100) % 256) as u8,
        (nonce % 256) as u8,
    ];
    assert(r@ =~= nonce_bytes(nonce));
    r
}

/// What a cipher state opens a message to: nothing without a key or once the counter is
/// spent, otherwise what the AEAD opens under the key and the counter's nonce.
pub open spec fn cipher_opens(cs: CipherState, ciphertext: Seq<u8>, aad: Seq<u8>) -> Option<Seq<u8>> {
    if cs.spec_has_key() && cs.spec_nonce() < u64::MAX {
        chacha_open(cs.spec_key(), nonce_bytes(cs.spec_nonce()), ciphertext, aad)
    } else {
        None
    }
}

impl CipherState {
    pub fn with_key(key: [u8; 32]) -> (r: Self)
        ensures
            r.spec_has_key(),
            r.spec_nonce() == 0,
            r.spec_key() == key@,
    {
        CipherState { key, nonce: 0, has_key: true }
    }

    pub fn initialize_key(&mut self, key: [u8; 32])
        ensures
            final(self).spec_has_key(),
            final(self).spec_nonce() == 0,
            final(self).spec_key() == key@,
    {
        self.key = key;
        self.nonce = 0;
        self.has_key = true;
    }

    /// Seals a message under the current key and counter, then advances the counter.
    pub fn encrypt(&mut self, plaintext: &[u8], aad: &[u8]) -> (r: Result<Vec<u8>, SecurityError>)
        ensures
            r is Ok <==> old(self).spec_has_key() && chacha_accepts_len(plaintext@.len()) && old(self).spec_nonce() < u64::MAX,
            r matches Err(e) ==> e == (if old(self).spec_has_key() {
                SecurityError::CipherFailure
            } else {
                SecurityError::InvalidHandshake
            }),
            r matches Ok(c) ==> c@ == chacha_seal(
                old(self).spec_key(),
                nonce_bytes(old(self).spec_nonce()),
                plaintext@,
                aad@,
            ),
            r matches Ok(c) ==> chacha_open(old(self).spec_key(), nonce_bytes(old(self).spec_nonce()), c@, aad@)
                == Some(plaintext@),
            r is Ok ==> final(self).spec_nonce() == old(self).spec_nonce() + 1,
            r is Err ==> final(self).spec_nonce() == old(self).spec_nonce(),
            final(self).spec_key() == old(self).spec_key(),
            final(self).spec_has_key() == old(self).spec_has_key(),
    {
        if !self.has_key {
            return Err(SecurityError::InvalidHandshake);
        }
        let nonce_bytes = nonce_to_bytes(self.nonce);
        let ciphertext = match encrypt_chacha20poly1305(&self.key, &nonce_bytes, plaintext, aad) {
            Ok(c) => c,
            Err(_) => {
                return Err(SecurityError::CipherFailure);
            },
        };
        self.nonce = match self.nonce.checked_add(1) {
            Some(n) => n,
            None => {
                return Err(SecurityError::CipherFailure);
            },
        };
        Ok(ciphertext)
    }

    /// Opens a message under the current key and counter, then advances the counter.
    pub fn decrypt(&mut self, ciphertext: &[u8], aad: &[u8]) -> (r: Result<Vec<u8>, SecurityError>)
        ensures
            r is Ok <==> cipher_opens(*old(self), ciphertext@, aad@) is Some,
            r matches Ok(p) ==> cipher_opens(*old(self), ciphertext@, aad@) == Some(p@),
            r matches Err(e) ==> e == (if old(self).spec_has_key() {
                SecurityError::CipherFailure
            } else {
                SecurityError::InvalidHandshake
            }),
            r is Ok ==> final(self).spec_nonce() == old(self).spec_nonce() + 1,
            r is Err ==> final(self).spec_nonce() == old(self).spec_nonce(),
            final(self).spec_key() == old(self).spec_key(),
            final(self).spec_has_key() == old(self).spec_has_key(),
    {
        if !self.has_key {
            return Err(SecurityError::InvalidHandshake);
        }
        let nonce_bytes = nonce_to_bytes(self.nonce);
        let plaintext = match decrypt_chacha20poly1305(&self.key, &nonce_bytes, ciphertext, aad) {
            Ok(p) => p,
            Err(_) => {
                return Err(SecurityError::CipherFailure);
            },
        };
        self.nonce = match self.nonce.checked_add(1) {
            Some(n) => n,
            None => {
                return Err(SecurityError::CipherFailure);
            },
        };
        Ok(plaintext)
    }
}

/// A receiver in step with the sender (keyed, same key, same counter) opens what the sender
/// sealed and gets the plaintext back: the sender's seal succeeded, so its counter was not
/// spent, and the ciphertext is one that opens under that key and nonce.
pub proof fn lemma_peer_in_step_opens(
    sender: CipherState,
    receiver: CipherState,
    plaintext: Seq<u8>,
    ciphertext: Seq<u8>,
    aad: Seq<u8>,
)
    requires
        sender.spec_has_key(),
        sender.spec_nonce() < u64::MAX,
        chacha_open(sender.spec_key(), nonce_bytes(sender.spec_nonce()), ciphertext, aad) == Some(
            plaintext,
        ),
        receiver.spec_has_key(),
        receiver.spec_key() == sender.spec_key(),
        receiver.spec_nonce() == sender.spec_nonce(),
    ensures
        cipher_opens(receiver, ciphertext, aad) == Some(plaintext),
{
}

} // verus!
