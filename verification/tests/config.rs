use apate::config::parser::parse_config;
use apate::config::profiles::{builtin_profile, is_builtin_profile, load_profile, ProfileError, CHROME_131, FIREFOX_130, SAFARI_18};
use apate::config::types::{AppConfig, AuthConfig, ClientConfig, DnsMode, RoutingMode};
use apate::util::{AuthMethod, TransportMode};
use apate::ConfigError;

#[test]
fn parse_config_accepts_valid_input() {
    let input = r#"
            client.server = "127.0.0.1:443"
            auth.methods = ["static_key", "token"]
            transport.mode = "auto"
            dns.mode = "doh"
        "#;

    let parsed = parse_config(input).expect("valid config must parse");

    assert_eq!("127.0.0.1:443", parsed.client.server);
    assert_eq!(TransportMode::Auto, parsed.transport.mode);
    assert_eq!(vec![AuthMethod::StaticKey, AuthMethod::Token], parsed.auth.methods);
}

#[test]
fn parse_config_rejects_unsupported_key() {
    let input = r#"
            client.server = "127.0.0.1:443"
            auth.methods = ["static_key"]
            unknown.key = "value"
        "#;

    assert!(parse_config(input).is_err());
}

#[test]
fn chrome_profile_exists() {
    assert!(is_builtin_profile(CHROME_131));
}

#[test]
fn firefox_profile_exists() {
    assert!(builtin_profile(FIREFOX_130).is_some());
}

#[test]
fn safari_profile_exists() {
    assert!(builtin_profile(SAFARI_18).is_some());
}

#[test]
fn custom_profile_override_is_validated() {
    let override_source = r#"
            name = "custom"
            alpn = "h3"
            min_packet_size = 900
            max_packet_size = 1100
            min_jitter_ms = 2
            max_jitter_ms = 8
        "#;

    let loaded = load_profile("custom", Some(override_source)).expect("profile");
    assert_eq!("custom", loaded.name);
    assert_eq!("h3", loaded.alpn);
}

#[test]
fn invalid_override_key_is_rejected() {
    let override_source = r#"
            invalid_key = "1"
        "#;

    let loaded = load_profile("custom", Some(override_source));
    assert_eq!(Err(ProfileError::InvalidOverrideKey { key: String::from("invalid_key") }), loaded);
}

#[test]
fn routing_mode_roundtrip_parse() {
    let mode = RoutingMode::Split;
    let as_str = mode.as_str();

    assert_eq!(Some(mode), RoutingMode::parse(as_str));
}

#[test]
fn dns_mode_roundtrip_parse() {
    let mode = DnsMode::Fallback;
    let as_str = mode.as_str();

    assert_eq!(Some(mode), DnsMode::parse(as_str));
}

#[test]
fn client_validation_requires_server_endpoint() {
    let config = AppConfig { client: ClientConfig { server: String::new() }, ..Default::default() };

    assert!(config.validate_client().is_err());
}

#[test]
fn client_validation_passes_with_server_endpoint() {
    let config = AppConfig {
        client: ClientConfig { server: String::from("1.2.3.4:443") },
        ..Default::default()
    };

    assert!(config.validate_client().is_ok());
}

#[test]
fn server_validation_requires_auth_methods() {
    let config = AppConfig { auth: AuthConfig { methods: Vec::new() }, ..Default::default() };

    assert!(config.validate_server().is_err());
}

#[test]
fn server_validation_passes_with_auth_methods() {
    let config = AppConfig {
        auth: AuthConfig { methods: vec![AuthMethod::StaticKey] },
        ..Default::default()
    };

    assert!(config.validate_server().is_ok());
}

#[test]
fn base_validation_rejects_zero_timeout() {
    let mut config = AppConfig::default();
    config.transport.fallback_timeout_secs = 0;

    assert!(config.validate().is_err());
}

#[test]
fn defaults_use_expected_values() {
    let config = AppConfig::default();

    assert_eq!(TransportMode::Auto, config.transport.mode);
    assert!(config.stealth.facade_on_auth_failure);
    assert_eq!("0.0.0.0:443", config.server.listen);
    assert_eq!("chrome_131", config.stealth.profile);
}

#[test]
fn parse_config_last_setting_wins_and_fields_apply() {
    let input = "# comment\n\
        server.listen = 10.0.0.1:8443\n\
        server.listen = \"10.0.0.2:9443\"\n\
        transport.fallback_timeout = +7\n\
        stealth.profile_path = \"\"\n\
        stealth.facade_on_auth_failure = false\n\
        crypto.post_quantum = false\n\
        crypto.rekey_interval_secs = 4294967295\n\
        crypto.rekey_interval_bytes = 18446744073709551615\n\
        routing.mode = split\r\n\
        dns.mode = \"fallback\"\n\
        auth.methods = []\n";
    let parsed = parse_config(input).expect("parse");
    assert_eq!("10.0.0.2:9443", parsed.server.listen);
    assert_eq!(7, parsed.transport.fallback_timeout_secs);
    assert_eq!(None, parsed.stealth.profile_path);
    assert!(!parsed.stealth.facade_on_auth_failure);
    assert!(!parsed.crypto.post_quantum);
    assert_eq!(u32::MAX, parsed.crypto.rekey_interval_secs);
    assert_eq!(u64::MAX, parsed.crypto.rekey_interval_bytes);
    assert_eq!(RoutingMode::Split, parsed.routing.mode);
    assert_eq!(DnsMode::Fallback, parsed.dns.mode);
    assert!(parsed.auth.methods.is_empty());
}

#[test]
fn parse_config_reports_each_error_kind() {
    assert_eq!(
        Err(ConfigError::InvalidValue { key: String::from("line_format") }),
        parse_config("client.server")
    );
    assert_eq!(
        Err(ConfigError::UnsupportedKey { key: String::from("client.port") }),
        parse_config("client.port = 1")
    );
    assert_eq!(
        Err(ConfigError::InvalidValue { key: String::from("transport.fallback_timeout") }),
        parse_config("transport.fallback_timeout = 0")
    );
    assert_eq!(
        Err(ConfigError::InvalidValue { key: String::from("transport.fallback_timeout") }),
        parse_config("transport.fallback_timeout = 65536")
    );
    assert_eq!(
        Err(ConfigError::InvalidValue { key: String::from("transport.mode") }),
        parse_config("transport.mode = carrier-pigeon")
    );
    assert_eq!(
        Err(ConfigError::InvalidValue { key: String::from("auth.methods") }),
        parse_config("auth.methods = static_key")
    );
    assert_eq!(
        Err(ConfigError::InvalidValue { key: String::from("auth.methods") }),
        parse_config("auth.methods = [\"static_key\", \"password\"]")
    );
    assert_eq!(
        "unsupported configuration key: client.port",
        ConfigError::UnsupportedKey { key: String::from("client.port") }.message()
    );
}
