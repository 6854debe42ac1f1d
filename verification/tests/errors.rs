use apate::auth::AuthError;
use apate::noise::SecurityError;
use apate::{ApateError, ConfigError, RuntimeError};

#[test]
fn apate_error_wraps_each_failure() {
    let config = ApateError::from(ConfigError::InvalidValue { key: String::from("dns.mode") });
    assert_eq!(config, ApateError::Config(ConfigError::InvalidValue { key: String::from("dns.mode") }));
    assert_eq!("invalid configuration value for key: dns.mode", config.message());

    let auth = ApateError::from(AuthError::Rejected);
    assert_eq!(auth, ApateError::Auth(AuthError::Rejected));
    assert_eq!("authentication rejected", auth.message());

    let security = ApateError::from(SecurityError::ReplayDetected);
    assert_eq!(security, ApateError::Security(SecurityError::ReplayDetected));
    assert_eq!("replay detected", security.message());

    let runtime = ApateError::from(RuntimeError::EventLoopStartFailed);
    assert_eq!(runtime, ApateError::Runtime(RuntimeError::EventLoopStartFailed));
    assert_eq!("event loop start failed", runtime.message());
}

#[test]
fn security_error_messages() {
    assert_eq!("invalid handshake sequence", SecurityError::InvalidHandshake.message());
    assert_eq!("key derivation failed", SecurityError::KeyDerivationFailed.message());
    assert_eq!("cipher operation failed", SecurityError::CipherFailure.message());
    assert_eq!(
        "constant-time verification failed",
        SecurityError::ConstantTimeVerificationFailed.message()
    );
}
