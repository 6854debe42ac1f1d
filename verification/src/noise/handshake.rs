use vstd::prelude::*;
use crate::crypto::kdf::{blake3_digest, derived_key};
use crate::crypto::kx::{derive_public_key, derive_shared_secret, x25519_public, x25519_shared};
use crate::crypto::rng::os_seed;
use crate::crypto::sign::{ed25519_valid, verify_message};
use crate::noise::SecurityError;
use crate::noise::state::{HandshakeState, NoiseSession};
use crate::noise::symmetric_state::{SymmetricState, mix_key_context};

verus! {

/// The messages of the handshake.
#[derive(Debug, Clone, PartialEq, Eq)]
pub enum HandshakeMessage {
    ClientHello { ephemeral_public: [u8; 32] },
    ServerHello { ephemeral_public: [u8; 32] },
    AuthProof { signature: [u8; 64] },
}

/// One side of the handshake: it checks the order of messages, refuses replays, mixes the
/// Diffie-Hellman secret into its keys and verifies the peer's signature over the transcript.
#[derive(Debug, Clone, PartialEq, Eq)]
pub struct HandshakeMachine {
    pub session: NoiseSession,
    pub symmetric_state: SymmetricState,
    local_ephemeral_secret: [u8; 32],
    peer_ephemeral_public: [u8; 32],
    peer_static_public: [u8; 32],
    seen_client_hello: bool,
    seen_server_hello: bool,
}

impl HandshakeMachine {
    pub closed spec fn spec_session(&self) -> NoiseSession {
        self.session
    }

    pub closed spec fn spec_symmetric(&self) -> SymmetricState {
        self.symmetric_state
    }

    pub closed spec fn spec_local_secret(&self) -> Seq<u8> {
        self.local_ephemeral_secret@
    }

    pub closed spec fn spec_peer_ephemeral(&self) -> Seq<u8> {
        self.peer_ephemeral_public@
    }

    pub closed spec fn spec_peer_static(&self) -> Seq<u8> {
        self.peer_static_public@
    }

    pub closed spec fn spec_seen_client_hello(&self) -> bool {
        self.seen_client_hello
    }

    pub closed spec fn spec_seen_server_hello(&self) -> bool {
        self.seen_server_hello
    }

    /// A machine at the start of a handshake with a fresh ephemeral secret.
    pub fn new(peer_static_public: [u8; 32]) -> (r: Self)
        ensures
            r.spec_session().state == HandshakeState::Init,
            r.spec_session().key_epoch == 0,
            r.spec_peer_static() == peer_static_public@,
            !r.spec_seen_client_hello(),
            !r.spec_seen_server_hello(),
            r.spec_peer_ephemeral() == Seq::new(32, |i: int| 0u8),
            r.spec_symmetric().handshake_hash@ == Seq::new(32, |i: int| 0u8),
            r.spec_symmetric().chaining_key@ == Seq::new(32, |i: int| 0u8),
    {
        HandshakeMachine {
            session: NoiseSession::default(),
            symmetric_state: SymmetricState::default(),
            local_ephemeral_secret: os_seed(),
            peer_ephemeral_public: [0u8; 32],
            peer_static_public,
            seen_client_hello: false,
            seen_server_hello: false,
        }
    }

    pub fn local_ephemeral_public(&self) -> (r: [u8; 32])
        ensures
            r@ == x25519_public(self.spec_local_secret()),
    {
        derive_public_key(self.local_ephemeral_secret)
    }

    /// Takes the next handshake message and gives the stage the session has reached.
    pub fn process(&mut self, message: HandshakeMessage) -> (r: Result<HandshakeState, SecurityError>)
        ensures
            r matches Ok(s) ==> s == final(self).spec_session().state,
            r is Err ==> final(self).spec_session() == old(self).spec_session() && final(self).spec_symmetric() == old(self).spec_symmetric() && final(self).spec_seen_client_hello()
                == old(self).spec_seen_client_hello() && final(self).spec_seen_server_hello() == old(self).spec_seen_server_hello() && final(self).spec_peer_ephemeral() == old(self).spec_peer_ephemeral(),
            final(self).spec_local_secret() == old(self).spec_local_secret(),
            final(self).spec_peer_static() == old(self).spec_peer_static(),
            final(self).spec_session().key_epoch == old(self).spec_session().key_epoch,
            match message {
                HandshakeMessage::ClientHello { ephemeral_public } => {
                    if old(self).spec_seen_client_hello() {
                        r == Err::<HandshakeState, SecurityError>(SecurityError::ReplayDetected)
                    } else if old(self).spec_session().state != HandshakeState::Init {
                        r == Err::<HandshakeState, SecurityError>(SecurityError::InvalidHandshake)
                    } else {
                        &&& r == Ok::<HandshakeState, SecurityError>(
                            HandshakeState::EphemeralExchanged,
                        )
                        &&& final(self).spec_seen_client_hello()
                        &&& final(self).spec_seen_server_hello() == old(self).spec_seen_server_hello()
                        &&& final(self).spec_peer_ephemeral() == ephemeral_public@
                        &&& final(self).spec_symmetric().handshake_hash@ == blake3_digest(
                            old(self).spec_symmetric().handshake_hash@ + ephemeral_public@,
                        )
                        &&& final(self).spec_symmetric().chaining_key == old(self).spec_symmetric().chaining_key
                        &&& final(self).spec_symmetric().cipher_state == old(self).spec_symmetric().cipher_state
                    }
                },
                HandshakeMessage::ServerHello { ephemeral_public } => {
                    if old(self).spec_seen_server_hello() {
                        r == Err::<HandshakeState, SecurityError>(SecurityError::ReplayDetected)
                    } else if old(self).spec_session().state != HandshakeState::EphemeralExchanged {
                        r == Err::<HandshakeState, SecurityError>(SecurityError::InvalidHandshake)
                    } else {
                        let peer = if old(self).spec_seen_client_hello() {
                            ephemeral_public@
                        } else {
                            old(self).spec_peer_ephemeral()
                        };
                        &&& r == Ok::<HandshakeState, SecurityError>(
                            HandshakeState::EphemeralExchanged,
                        )
                        &&& final(self).spec_seen_server_hello()
                        &&& final(self).spec_seen_client_hello() == old(self).spec_seen_client_hello()
                        &&& final(self).spec_peer_ephemeral() == ephemeral_public@
                        &&& final(self).spec_symmetric().handshake_hash@ == blake3_digest(
                            old(self).spec_symmetric().handshake_hash@ + ephemeral_public@,
                        )
                        &&& final(self).spec_symmetric().chaining_key@ == derived_key(
                            x25519_shared(old(self).spec_local_secret(), peer),
                            old(self).spec_symmetric().chaining_key@,
                            mix_key_context(),
                        )
                        &&& final(self).spec_symmetric().cipher_state.spec_key() == final(self).spec_symmetric().chaining_key@
                        &&& final(self).spec_symmetric().cipher_state.spec_has_key()
                        &&& final(self).spec_symmetric().cipher_state.spec_nonce() == 0
                    }
                },
                HandshakeMessage::AuthProof { signature } => {
                    if old(self).spec_session().state != HandshakeState::EphemeralExchanged || !old(self).spec_seen_server_hello() {
                        r == Err::<HandshakeState, SecurityError>(SecurityError::InvalidHandshake)
                    } else if !ed25519_valid(
                        old(self).spec_peer_static(),
                        old(self).spec_symmetric().handshake_hash@,
                        signature@,
                    ) {
                        r == Err::<HandshakeState, SecurityError>(
                            SecurityError::ConstantTimeVerificationFailed,
                        )
                    } else {
                        &&& r == Ok::<HandshakeState, SecurityError>(HandshakeState::Established)
                        &&& final(self).spec_seen_client_hello() == old(self).spec_seen_client_hello()
                        &&& final(self).spec_seen_server_hello()
                        &&& final(self).spec_peer_ephemeral() == old(self).spec_peer_ephemeral()
                        &&& final(self).spec_symmetric().handshake_hash@ == blake3_digest(
                            old(self).spec_symmetric().handshake_hash@ + signature@,
                        )
                        &&& final(self).spec_symmetric().chaining_key == old(self).spec_symmetric().chaining_key
                        &&& final(self).spec_symmetric().cipher_state == old(self).spec_symmetric().cipher_state
                    }
                },
            },
    {
        match message {
            HandshakeMessage::ClientHello { ephemeral_public } => {
                if self.seen_client_hello {
                    return Err(SecurityError::ReplayDetected);
                }
                if self.session.state != HandshakeState::Init {
                    return Err(SecurityError::InvalidHandshake);
                }
                self.peer_ephemeral_public = ephemeral_public;
                self.symmetric_state.mix_hash(&ephemeral_public);
                self.seen_client_hello = true;
                let t = self.session.transition(HandshakeState::EphemeralExchanged);
                assert(t is Ok);
            },
            HandshakeMessage::ServerHello { ephemeral_public } => {
                if self.seen_server_hello {
                    return Err(SecurityError::ReplayDetected);
                }
                if self.session.state != HandshakeState::EphemeralExchanged {
                    return Err(SecurityError::InvalidHandshake);
                }
                self.symmetric_state.mix_hash(&ephemeral_public);
                let peer_for_dh = if self.seen_client_hello && !self.seen_server_hello {
                    ephemeral_public
                } else {
                    self.peer_ephemeral_public
                };
                let shared = match derive_shared_secret(self.local_ephemeral_secret, peer_for_dh) {
                    Ok(s) => s,
                    Err(_) => {
                        return Err(SecurityError::KeyDerivationFailed);
                    },
                };
                let m = self.symmetric_state.mix_key(&shared);
                assert(m is Ok);
                self.peer_ephemeral_public = ephemeral_public;
                self.seen_server_hello = true;
            },
            HandshakeMessage::AuthProof { signature } => {
                if self.session.state != HandshakeState::EphemeralExchanged {
                    return Err(SecurityError::InvalidHandshake);
                }
                if !self.seen_server_hello {
                    return Err(SecurityError::InvalidHandshake);
                }
                match verify_message(
                    self.peer_static_public,
                    &self.symmetric_state.handshake_hash,
                    signature,
                ) {
                    Ok(()) => {},
                    Err(_) => {
                        return Err(SecurityError::ConstantTimeVerificationFailed);
                    },
                }
                self.symmetric_state.mix_hash(&signature);
                let a = self.session.transition(HandshakeState::Authenticated);
                assert(a is Ok);
                let b = self.session.transition(HandshakeState::Established);
                assert(b is Ok);
            },
        }
        Ok(self.session.state)
    }
}

/// Reads `N` bytes at the cursor, as many as remain, zero-filled past the end, and moves
/// the cursor past what it read.
pub fn read_fixed<const N: usize>(data: &[u8], cursor: &mut usize) -> (r: [u8; N])
    ensures
        *final(cursor) == if *old(cursor) >= data@.len() {
            *old(cursor) as int
        } else {
            *old(cursor) + vstd::math::min(data@.len() - *old(cursor), N as int)
        },
        forall|i: int|
            0 <= i < N ==> #[trigger] r@[i] == (if *old(cursor) + i < data@.len() {
                data@[*old(cursor) + i]
            } else {
                0u8
            }),
{
    let mut out: [u8; N] = vstd::array::array_fill_for_copy_types::<u8, N>(0u8);
    let remaining: usize = if data.len() > *cursor {
        data.len() - *cursor
    } else {
        0
    };
    let take: usize = if remaining < N {
        remaining
    } else {
        N
    };
    let start = *cursor;
    let dlen = data.len();
    assert(take == 0 || start + take <= data@.len());
    let mut i: usize = 0;
    while i < take
        invariant
            take <= N,
            start == *old(cursor),
            take == (if start >= data@.len() {
                0
            } else {
                vstd::math::min(data@.len() - start, N as int)
            }),
            i <= take,
            take == 0 || start + take <= data@.len(),
            dlen == data@.len(),
            out@.len() == N,
            forall|j: int|
                0 <= j < N ==> #[trigger] out@[j] == (if j < i {
                    data@[start + j]
                } else {
                    0u8
                }),
        decreases take - i,
    {
        out.set(i, data[start + i]);
        i = i + 1;
    }
    *cursor = start + take;
    out
}

} // verus!
