use apate::crypto::kx::{derive_public_key, derive_shared_secret};
use apate::crypto::sign::{derive_verifying_key, sign_message};
use apate::noise::cipher_state::CipherState;
use apate::noise::handshake::{HandshakeMachine, HandshakeMessage};
use apate::noise::symmetric_state::SymmetricState;
use apate::noise::{HandshakeState, NoiseSession};

#[test]
fn cipher_state_roundtrip_after_key_init() {
    let mut sender = CipherState::with_key([5_u8; 32]);
    let mut receiver = CipherState::with_key([5_u8; 32]);
    let aad = b"noise";
    let plaintext = b"payload";

    let ciphertext = sender.encrypt(plaintext, aad).expect("encrypt");
    let decrypted = receiver.decrypt(&ciphertext, aad).expect("decrypt");

    assert_eq!(plaintext.to_vec(), decrypted);
}

#[test]
fn handshake_reaches_established_with_real_dh_and_signature() {
    let server_signing_key = [42u8; 32];
    let server_verifying_key = derive_verifying_key(server_signing_key);

    let mut client = HandshakeMachine::new(server_verifying_key);
    let mut server = HandshakeMachine::new([0u8; 32]);

    let client_eph_pub = client.local_ephemeral_public();
    let server_eph_pub = server.local_ephemeral_public();

    assert_eq!(
        HandshakeState::EphemeralExchanged,
        server
            .process(HandshakeMessage::ClientHello { ephemeral_public: client_eph_pub })
            .expect("server processes client hello")
    );

    assert_eq!(
        HandshakeState::EphemeralExchanged,
        client
            .process(HandshakeMessage::ClientHello { ephemeral_public: client_eph_pub })
            .expect("client records own hello")
    );

    assert_eq!(
        HandshakeState::EphemeralExchanged,
        client
            .process(HandshakeMessage::ServerHello { ephemeral_public: server_eph_pub })
            .expect("client processes server hello")
    );

    let signature = sign_message(server_signing_key, &client.symmetric_state.handshake_hash);

    assert_eq!(
        HandshakeState::Established,
        client
            .process(HandshakeMessage::AuthProof { signature })
            .expect("client verifies auth proof")
    );
}

#[test]
fn handshake_rejects_invalid_signature() {
    let server_signing_key = [42u8; 32];
    let server_verifying_key = derive_verifying_key(server_signing_key);

    let mut client = HandshakeMachine::new(server_verifying_key);
    let client_eph_pub = client.local_ephemeral_public();

    client
        .process(HandshakeMessage::ClientHello { ephemeral_public: client_eph_pub })
        .expect("client hello");

    client
        .process(HandshakeMessage::ServerHello { ephemeral_public: [7u8; 32] })
        .expect("server hello");

    let bad_signature = [0xFFu8; 64];
    let result = client.process(HandshakeMessage::AuthProof { signature: bad_signature });

    assert!(result.is_err());
}

#[test]
fn handshake_rejects_invalid_order() {
    let mut machine = HandshakeMachine::new([0u8; 32]);

    let result = machine.process(HandshakeMessage::AuthProof { signature: [1_u8; 64] });

    assert!(result.is_err());
}

#[test]
fn handshake_detects_replay() {
    let mut machine = HandshakeMachine::new([0u8; 32]);
    machine
        .process(HandshakeMessage::ClientHello { ephemeral_public: [1_u8; 32] })
        .expect("first client hello");

    let replay_result = machine.process(HandshakeMessage::ClientHello { ephemeral_public: [1_u8; 32] });

    assert!(replay_result.is_err());
}

#[test]
fn handshake_rejects_auth_proof_before_server_hello() {
    let mut machine = HandshakeMachine::new([0u8; 32]);
    machine
        .process(HandshakeMessage::ClientHello { ephemeral_public: [1_u8; 32] })
        .expect("client hello");

    let result = machine.process(HandshakeMessage::AuthProof { signature: [9_u8; 64] });

    assert!(result.is_err());
}

#[test]
fn dh_shared_secret_matches_both_sides() {
    let alice_secret = [3u8; 32];
    let bob_secret = [9u8; 32];

    let alice_public = derive_public_key(alice_secret);
    let bob_public = derive_public_key(bob_secret);

    let shared_a = derive_shared_secret(alice_secret, bob_public).expect("alice");
    let shared_b = derive_shared_secret(bob_secret, alice_public).expect("bob");

    assert_eq!(shared_a, shared_b);
}

#[test]
fn default_noise_session_is_init() {
    let session = NoiseSession::default();

    assert_eq!(HandshakeState::Init, session.state);
}

#[test]
fn transition_rejects_invalid_state_order() {
    let mut session = NoiseSession::default();

    let result = session.transition(HandshakeState::Established);

    assert!(result.is_err());
    assert_eq!(HandshakeState::Init, session.state);
}

#[test]
fn transition_accepts_expected_sequence() {
    let mut session = NoiseSession::default();

    assert!(session.transition(HandshakeState::EphemeralExchanged).is_ok());
    assert!(session.transition(HandshakeState::Authenticated).is_ok());
    assert!(session.transition(HandshakeState::Established).is_ok());
}

#[test]
fn rekey_updates_epoch_after_establishment() {
    let mut session = NoiseSession::default();
    session.transition(HandshakeState::EphemeralExchanged).expect("ephemeral");
    session.transition(HandshakeState::Authenticated).expect("authenticated");
    session.transition(HandshakeState::Established).expect("established");

    session.begin_rekey().expect("begin rekey");
    let epoch = session.finalize_rekey().expect("finalize rekey");

    assert_eq!(HandshakeState::Established, session.state);
    assert_eq!(1, epoch);
}

#[test]
fn mix_key_initializes_cipher_state() {
    let mut state = SymmetricState::default();
    let plaintext = b"hello";
    let aad = b"aad";

    state.mix_key(b"input").expect("mix key");
    let ciphertext = state.cipher_state.encrypt(plaintext, aad).expect("encrypt after mix_key");

    assert!(!ciphertext.is_empty());
}

#[test]
fn cipher_state_nonces_advance_in_step() {
    let mut sender = CipherState::with_key([5_u8; 32]);
    let mut receiver = CipherState::with_key([5_u8; 32]);
    let first = sender.encrypt(b"one", b"").expect("first");
    let second = sender.encrypt(b"one", b"").expect("second");
    assert_ne!(first, second);
    assert!(receiver.decrypt(&second, b"").is_err());
    let mut fresh = CipherState::with_key([5_u8; 32]);
    assert_eq!(b"one".to_vec(), fresh.decrypt(&first, b"").expect("in order"));
    assert_eq!(b"one".to_vec(), fresh.decrypt(&second, b"").expect("next"));
}

#[test]
fn cipher_state_without_key_refuses() {
    let mut state = CipherState::default();
    assert!(state.encrypt(b"x", b"").is_err());
    assert!(state.decrypt(b"x", b"").is_err());
}

#[test]
fn rekey_refused_before_establishment() {
    let mut session = NoiseSession::default();
    assert!(session.begin_rekey().is_err());
    assert!(session.finalize_rekey().is_err());
    assert_eq!(HandshakeState::Init, session.state);
}
