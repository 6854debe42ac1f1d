use apate::auth::backend::AuthCoordinator;
use apate::auth::certificate::{CertificateBackend, CertificateClaims, CertificatePolicy, TrustAnchor};
use apate::auth::static_key::StaticKeyBackend;
use apate::auth::token::{TokenBackend, TokenClaims, TokenPolicy};
use apate::auth::{evaluate_probe_gate, AuthBackend, AuthError, AuthIdentity, AuthInput, ProbeGatePolicy, ProbeGateResult};
use apate::util::AuthMethod;

#[test]
fn coordinator_dispatches_to_registered_backend() {
    let mut coordinator = AuthCoordinator::new(vec![AuthMethod::StaticKey]);
    coordinator.register_backend(
        AuthMethod::StaticKey,
        Box::new(StaticKeyBackend::new(vec![b"ok-key".to_vec()])),
    );

    let identity = coordinator
        .authenticate(AuthInput { method: AuthMethod::StaticKey, payload: b"ok-key".to_vec() })
        .expect("coordinator auth");

    assert_eq!("static-key", identity.subject);
}

#[test]
fn coordinator_rejects_when_backend_not_enabled() {
    let mut coordinator = AuthCoordinator::new(vec![AuthMethod::Token]);
    coordinator.register_backend(
        AuthMethod::StaticKey,
        Box::new(StaticKeyBackend::new(vec![b"ok-key".to_vec()])),
    );

    let error = coordinator
        .authenticate(AuthInput { method: AuthMethod::StaticKey, payload: b"ok-key".to_vec() })
        .expect_err("unsupported method");

    assert_eq!(AuthError::UnsupportedBackend { method: AuthMethod::StaticKey }, error);
}

#[test]
fn coordinator_preserves_sanitized_rejected_error() {
    let mut coordinator = AuthCoordinator::new(vec![AuthMethod::StaticKey]);
    coordinator.register_backend(
        AuthMethod::StaticKey,
        Box::new(StaticKeyBackend::new(vec![b"ok-key".to_vec()])),
    );

    let error = coordinator
        .authenticate(AuthInput { method: AuthMethod::StaticKey, payload: b"bad-key".to_vec() })
        .expect_err("rejected");

    assert_eq!(AuthError::Rejected, error);
    assert_eq!("authentication rejected", error.message());
}

#[test]
fn trust_anchor_parser_accepts_valid_source() {
    let parsed = TrustAnchor::parse(
        "issuer=apate-test-ca\nkey=1111111111111111111111111111111111111111111111111111111111111111",
    )
    .expect("anchor parse");

    assert_eq!(TrustAnchor { issuer: String::from("apate-test-ca"), key: [0x11_u8; 32] }, parsed);
}

#[test]
fn certificate_backend_accepts_trusted_certificate() {
    let backend = CertificateBackend::new(
        vec![TrustAnchor { issuer: String::from("apate-test-ca"), key: [0x11_u8; 32] }],
        CertificatePolicy { now_unix: 1_700_000_000 },
    );
    let certificate = CertificateClaims {
        subject: String::from("cert-user"),
        issuer: String::from("apate-test-ca"),
        serial: String::from("SER-001"),
        not_after_unix: 1_700_000_100,
        public_key: String::from("pk-001"),
    }
    .encode_signed(&[0x11_u8; 32]);

    let identity = backend
        .authenticate(AuthInput { method: AuthMethod::Certificate, payload: certificate.into_bytes() })
        .expect("trusted certificate");

    assert_eq!("cert-user", identity.subject);
    assert_eq!(AuthMethod::Certificate, identity.method);
}

#[test]
fn certificate_backend_rejects_expired_or_untrusted_certificate() {
    let backend = CertificateBackend::new(
        vec![TrustAnchor { issuer: String::from("apate-test-ca"), key: [0x11_u8; 32] }],
        CertificatePolicy { now_unix: 1_700_000_000 },
    );
    let expired = CertificateClaims {
        subject: String::from("expired-cert"),
        issuer: String::from("apate-test-ca"),
        serial: String::from("SER-002"),
        not_after_unix: 1_699_999_900,
        public_key: String::from("pk-002"),
    }
    .encode_signed(&[0x11_u8; 32]);
    let untrusted = CertificateClaims {
        subject: String::from("untrusted-cert"),
        issuer: String::from("unknown-ca"),
        serial: String::from("SER-003"),
        not_after_unix: 1_700_000_100,
        public_key: String::from("pk-003"),
    }
    .encode_signed(&[0x22_u8; 32]);

    let expired_error = backend
        .authenticate(AuthInput { method: AuthMethod::Certificate, payload: expired.into_bytes() })
        .expect_err("expired cert");
    let untrusted_error = backend
        .authenticate(AuthInput { method: AuthMethod::Certificate, payload: untrusted.into_bytes() })
        .expect_err("untrusted cert");

    assert_eq!(AuthError::Rejected, expired_error);
    assert_eq!(AuthError::Rejected, untrusted_error);
}

#[test]
fn auth_error_message_stable() {
    let error = AuthError::UnsupportedBackend { method: AuthMethod::Token };

    assert_eq!("auth backend unsupported for method: Token", error.message());
}

#[test]
fn probe_gate_routes_failed_auth_to_facade_when_enabled() {
    let result = evaluate_probe_gate(
        Err(AuthError::Rejected),
        ProbeGatePolicy { facade_on_auth_failure: true },
    );

    assert_eq!(ProbeGateResult::ServeFacade, result);
}

#[test]
fn probe_gate_allows_authenticated_identity() {
    let result = evaluate_probe_gate(
        Ok(AuthIdentity { subject: String::from("client"), method: AuthMethod::StaticKey }),
        ProbeGatePolicy::default(),
    );

    assert!(matches!(result, ProbeGateResult::AllowTunnel(_)));
}

#[test]
fn static_key_backend_accepts_matching_key() {
    let backend = StaticKeyBackend::new(vec![b"key-a".to_vec()]);
    let identity = backend
        .authenticate(AuthInput { method: AuthMethod::StaticKey, payload: b"key-a".to_vec() })
        .expect("static key accepted");

    assert_eq!("static-key", identity.subject);
    assert_eq!(AuthMethod::StaticKey, identity.method);
}

#[test]
fn static_key_backend_rejects_unknown_key() {
    let backend = StaticKeyBackend::new(vec![b"key-a".to_vec()]);
    let error = backend
        .authenticate(AuthInput { method: AuthMethod::StaticKey, payload: b"key-b".to_vec() })
        .expect_err("unknown key");

    assert_eq!(AuthError::Rejected, error);
}

#[test]
fn token_backend_accepts_valid_token() {
    let backend = TokenBackend::new(
        [7_u8; 32],
        TokenPolicy {
            now_unix: 1_700_000_000,
            expected_audience: Some(String::from("apate-client")),
            expected_issuer: Some(String::from("apate-auth")),
        },
    );
    let token = TokenClaims {
        subject: String::from("token-user"),
        expires_at_unix: 1_700_000_100,
        audience: Some(String::from("apate-client")),
        issuer: Some(String::from("apate-auth")),
    }
    .encode_signed(&[7_u8; 32]);

    let identity = backend
        .authenticate(AuthInput { method: AuthMethod::Token, payload: token.into_bytes() })
        .expect("valid token");

    assert_eq!("token-user", identity.subject);
    assert_eq!(AuthMethod::Token, identity.method);
}

#[test]
fn token_backend_rejects_expired_or_invalid_signature_tokens() {
    let backend = TokenBackend::new(
        [7_u8; 32],
        TokenPolicy { now_unix: 1_700_000_000, expected_audience: None, expected_issuer: None },
    );
    let expired_token = TokenClaims {
        subject: String::from("expired-user"),
        expires_at_unix: 1_699_999_999,
        audience: None,
        issuer: None,
    }
    .encode_signed(&[7_u8; 32]);
    let invalid_signature = String::from("sub=user;exp=1700000100;sig=deadbeef");

    let expired_error = backend
        .authenticate(AuthInput { method: AuthMethod::Token, payload: expired_token.into_bytes() })
        .expect_err("expired token");
    let signature_error = backend
        .authenticate(AuthInput { method: AuthMethod::Token, payload: invalid_signature.into_bytes() })
        .expect_err("invalid signature");

    assert_eq!(AuthError::Rejected, expired_error);
    assert_eq!(AuthError::Rejected, signature_error);
}

#[test]
fn registering_a_method_again_replaces_its_backend_only() {
    let mut coordinator = AuthCoordinator::new(vec![AuthMethod::StaticKey, AuthMethod::Token]);
    coordinator.register_backend(
        AuthMethod::StaticKey,
        Box::new(StaticKeyBackend::new(vec![b"first-key".to_vec()])),
    );
    coordinator.register_backend(
        AuthMethod::StaticKey,
        Box::new(StaticKeyBackend::new(vec![b"second-key".to_vec()])),
    );

    assert_eq!(
        Err(AuthError::Rejected),
        coordinator.authenticate(AuthInput { method: AuthMethod::StaticKey, payload: b"first-key".to_vec() })
    );
    assert!(coordinator
        .authenticate(AuthInput { method: AuthMethod::StaticKey, payload: b"second-key".to_vec() })
        .is_ok());
    assert_eq!(
        Err(AuthError::UnsupportedBackend { method: AuthMethod::Token }),
        coordinator.authenticate(AuthInput { method: AuthMethod::Token, payload: b"x".to_vec() })
    );
}

#[test]
fn static_key_backend_registered_unboxed_replaces_the_boxed_one() {
    let mut coordinator = AuthCoordinator::new(vec![AuthMethod::StaticKey]);
    coordinator.register_backend(
        AuthMethod::StaticKey,
        Box::new(StaticKeyBackend::new(vec![b"old-key".to_vec()])),
    );
    coordinator.register_static_key_backend(StaticKeyBackend::new(vec![b"new-key".to_vec()]));
    assert_eq!(
        Err(AuthError::Rejected),
        coordinator.authenticate(AuthInput { method: AuthMethod::StaticKey, payload: b"old-key".to_vec() })
    );
    let identity = coordinator
        .authenticate(AuthInput { method: AuthMethod::StaticKey, payload: b"new-key".to_vec() })
        .expect("new key admitted");
    assert_eq!(AuthMethod::StaticKey, identity.method);
}
