use vstd::prelude::*;
use crate::crypto::kdf::{blake3_digest, blake3_hash, derive_key_material, derived_key, extend_bytes};
use crate::noise::SecurityError;
use crate::noise::cipher_state::CipherState;

verus! {

/// The chaining key, the transcript hash and the cipher that a handshake builds up.
#[derive(Debug, Clone, PartialEq, Eq)]
pub struct SymmetricState {
    pub chaining_key: [u8; 32],
    pub handshake_hash: [u8; 32],
    pub cipher_state: CipherState,
}

impl Default for SymmetricState {
    fn default() -> (r: Self)
        ensures
            r.chaining_key@ == Seq::new(32, |i: int| 0u8),
            r.handshake_hash@ == Seq::new(32, |i: int| 0u8),
            !r.cipher_state.spec_has_key(),
            r.cipher_state.spec_nonce() == 0,
    {
        SymmetricState {
            chaining_key: [0u8; 32],
            handshake_hash: [0u8; 32],
            cipher_state: CipherState::default(),
        }
    }
}

/// The context string that separates key mixing from other uses of the derivation.
pub open spec fn mix_key_context() -> Seq<u8> {
    seq![110u8, 111, 105, 115, 101, 45, 109, 105, 120, 45, 107, 101, 121]
}

fn mix_key_context_bytes() -> (r: Vec<u8>)
    ensures
        r@ == mix_key_context(),
{
    let r = vec![110u8, 111, 105, 115, 101, 45, 109, 105, 120, 45, 107, 101, 121];
    assert(r@ =~= mix_key_context());
    r
}

impl SymmetricState {
    /// Derives a new chaining key from input key material and rekeys the cipher with it.
    pub fn mix_key(&mut self, input_key_material: &[u8]) -> (r: Result<(), SecurityError>)
        ensures
            r is Ok <==> input_key_material@.len() > 0,
            r is Ok ==> final(self).chaining_key@ == derived_key(
                input_key_material@,
                old(self).chaining_key@,
                mix_key_context(),
            ),
            r is Ok ==> final(self).cipher_state.spec_key() == final(self).chaining_key@
                && final(self).cipher_state.spec_nonce() == 0
                && final(self).cipher_state.spec_has_key(),
            r is Err ==> *final(self) == *old(self),
            r matches Err(e) ==> e == SecurityError::KeyDerivationFailed,
            final(self).handshake_hash == old(self).handshake_hash,
    {
        let context = mix_key_context_bytes();
        let material = match derive_key_material(
            input_key_material,
            &self.chaining_key,
            context.as_slice(),
        ) {
            Ok(m) => m,
            Err(_) => {
                return Err(SecurityError::KeyDerivationFailed);
            },
        };
        self.chaining_key = *material.as_bytes();
        self.cipher_state.initialize_key(self.chaining_key);
        Ok(())
    }

    /// Folds data into the transcript hash.
    pub fn mix_hash(&mut self, data: &[u8])
        ensures
            final(self).handshake_hash@ == blake3_digest(old(self).handshake_hash@ + data@),
            final(self).chaining_key == old(self).chaining_key,
            final(self).cipher_state == old(self).cipher_state,
    {
        let mut input: Vec<u8> = Vec::new();
        extend_bytes(&mut input, &self.handshake_hash);
        extend_bytes(&mut input, data);
        self.handshake_hash = blake3_hash(input.as_slice());
    }
}

} // verus!
