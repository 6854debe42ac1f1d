use vstd::prelude::*;
use crate::crypto::CryptoError;

verus! {

/// The BLAKE3 digest of the input.
pub uninterp spec fn blake3_digest(data: Seq<u8>) -> Seq<u8>;

/// `blake3::hash`: the 32-byte BLAKE3 digest of the input.
#[verifier::external_body]
pub fn blake3_hash(data: &[u8]) -> (r: [u8; 32])
    ensures
        r@ == blake3_digest(data@),
{
    *blake3::hash(data).as_bytes()
}

/// `zeroize::Zeroize::zeroize` on a 32-byte array: every byte becomes zero.
#[verifier::external_body]
fn zeroize_array(bytes: &mut [u8; 32])
    ensures
        final(bytes)@ == Seq::new(32, |i: int| 0u8),
{
    zeroize::Zeroize::zeroize(bytes);
}

/// Key material that is wiped on request.
#[derive(Debug, Clone, PartialEq, Eq)]
pub struct SecretKeyMaterial {
    bytes: [u8; 32],
}

impl View for SecretKeyMaterial {
    type V = Seq<u8>;

    closed spec fn view(&self) -> Seq<u8> {
        self.bytes@
    }
}

impl SecretKeyMaterial {
    pub fn from_bytes(bytes: [u8; 32]) -> (r: Self)
        ensures
            r@ == bytes@,
    {
        SecretKeyMaterial { bytes }
    }

    pub fn as_bytes(&self) -> (r: &[u8; 32])
        ensures
            r@ == self@,
    {
        &self.bytes
    }

    pub fn erase(&mut self)
        ensures
            final(self)@ == Seq::new(32, |i: int| 0u8),
    {
        zeroize_array(&mut self.bytes);
    }
}

/// The key that `derive_key_material` derives: the digest of salt, input and context in turn.
pub open spec fn derived_key(input_key_material: Seq<u8>, salt: Seq<u8>, context: Seq<u8>) -> Seq<u8> {
    blake3_digest(salt + input_key_material + context)
}

/// Appends the bytes of `s` to `out`.
pub fn extend_bytes(out: &mut Vec<u8>, s: &[u8])
    ensures
        final(out)@ == old(out)@ + s@,
{
    let ghost start = out@;
    let mut i: usize = 0;
    while i < s.len()
        invariant
            i <= s@.len(),
            out@ == start + s@.take(i as int),
        decreases s@.len() - i,
    {
        out.push(s[i]);
        assert(s@.take(i + 1) =~= s@.take(i as int).push(s@[i as int]));
        i = i + 1;
    }
    assert(s@.take(s@.len() as int) =~= s@);
}

pub fn derive_key_material(input_key_material: &[u8], salt: &[u8], context: &[u8]) -> (r: Result<
    SecretKeyMaterial,
    CryptoError,
>)
    ensures
        r is Ok <==> input_key_material@.len() > 0,
        r matches Ok(k) ==> k@ == derived_key(input_key_material@, salt@, context@),
        r matches Err(e) ==> e == CryptoError::InvalidKeyLength,
{
    if input_key_material.len() == 0 {
        return Err(CryptoError::InvalidKeyLength);
    }
    let mut data: Vec<u8> = Vec::new();
    extend_bytes(&mut data, salt);
    extend_bytes(&mut data, input_key_material);
    extend_bytes(&mut data, context);
    let out = blake3_hash(data.as_slice());
    Ok(SecretKeyMaterial::from_bytes(out))
}

} // verus!
