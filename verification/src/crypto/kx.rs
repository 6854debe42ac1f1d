use vstd::prelude::*;
use x25519_dalek::{PublicKey, StaticSecret};
use crate::crypto::CryptoError;

verus! {

/// The X25519 public key of a secret.
pub uninterp spec fn x25519_public(secret: Seq<u8>) -> Seq<u8>;

/// The X25519 shared secret of a local secret and a peer's public key.
pub uninterp spec fn x25519_shared(secret: Seq<u8>, peer_public: Seq<u8>) -> Seq<u8>;

/// `PublicKey::from(&StaticSecret::from(secret))`, as bytes.
#[verifier::external_body]
pub fn derive_public_key(secret_bytes: [u8; 32]) -> (r: [u8; 32])
    ensures
        r@ == x25519_public(secret_bytes@),
{
    let secret = StaticSecret::from(secret_bytes);
    PublicKey::from(&secret).to_bytes()
}

/// `StaticSecret::diffie_hellman`, as bytes. Both sides of an exchange compute the same
/// secret: for a peer key that is the public key of some 32-byte secret `b`, the result is
/// what `b` computes with this side's public key.
#[verifier::external_body]
fn x25519_diffie_hellman(local_secret_bytes: [u8; 32], peer_public_bytes: [u8; 32]) -> (r: [u8; 32])
    ensures
        r@ == x25519_shared(local_secret_bytes@, peer_public_bytes@),
        forall|b: Seq<u8>|
            b.len() == 32 && peer_public_bytes@ == #[trigger] x25519_public(b) ==> r@ == x25519_shared(
                b,
                x25519_public(local_secret_bytes@),
            ),
{
    let local_secret = StaticSecret::from(local_secret_bytes);
    let peer_public = PublicKey::from(peer_public_bytes);
    local_secret.diffie_hellman(&peer_public).to_bytes()
}

/// The X25519 secret shared with a peer; both sides of an exchange arrive at the same one.
pub fn derive_shared_secret(local_secret_bytes: [u8; 32], peer_public_bytes: [u8; 32]) -> (r: Result<
    [u8; 32],
    CryptoError,
>)
    ensures
        r matches Ok(s) ==> s@ == x25519_shared(local_secret_bytes@, peer_public_bytes@),
        r matches Ok(s) ==> forall|b: Seq<u8>|
            b.len() == 32 && peer_public_bytes@ == #[trigger] x25519_public(b) ==> s@
                == x25519_shared(b, x25519_public(local_secret_bytes@)),
        r is Ok,
{
    Ok(x25519_diffie_hellman(local_secret_bytes, peer_public_bytes))
}

} // verus!
