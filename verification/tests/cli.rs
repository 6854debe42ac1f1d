use apate::cli::args::{CliArgs, CliParseError, Command};
use apate::auth::backend::AuthCoordinator;
use apate::auth::static_key::StaticKeyBackend;
use apate::auth::{AuthError, AuthInput, ProbeGatePolicy};
use apate::cli::commands::{
    coordinator_for, dispatch, handle_client_payload, load_config_from_source, Dispatch, ServerLoop, ServerReply,
    ServerStep,
    FIRST_CLIENT_TOKEN, LISTENER_TOKEN,
};
use apate::stealth::facade::FacadeResponder;
use apate::util::AuthMethod;

#[test]
fn parse_client_command() {
    let parsed = CliArgs::parse_from_slice(&[String::from("client")]).expect("parse");
    assert_eq!(Command::Client, parsed.command);
    assert!(!parsed.verbose);
    assert!(parsed.config_path.is_none());
}

#[test]
fn parse_server_with_config() {
    let args = vec![String::from("server"), String::from("--config"), String::from("/etc/apate.conf")];
    let parsed = CliArgs::parse_from_slice(&args).expect("parse");
    assert_eq!(Command::Server, parsed.command);
    assert_eq!(Some(String::from("/etc/apate.conf")), parsed.config_path);
}

#[test]
fn parse_verbose_flag() {
    let args = vec![String::from("-v"), String::from("client")];
    let parsed = CliArgs::parse_from_slice(&args).expect("parse");
    assert!(parsed.verbose);
}

#[test]
fn missing_command_returns_error() {
    let args: Vec<String> = Vec::new();
    let result = CliArgs::parse_from_slice(&args);
    assert!(matches!(result, Err(CliParseError::MissingCommand)));
}

#[test]
fn unknown_flag_returns_error() {
    let result = CliArgs::parse_from_slice(&[String::from("--foobar")]);
    assert!(matches!(result, Err(CliParseError::UnknownFlag(_))));
}

#[test]
fn dispatch_version_succeeds() {
    let args = CliArgs { command: Command::Version, config_path: None, verbose: false };
    assert!(dispatch(&args).is_ok());
}

#[test]
fn dispatch_help_succeeds() {
    let args = CliArgs { command: Command::Help, config_path: None, verbose: false };
    assert!(dispatch(&args).is_ok());
}

#[test]
fn dispatch_gen_key_succeeds() {
    let args = CliArgs { command: Command::GenKey, config_path: None, verbose: false };
    assert!(dispatch(&args).is_ok());
}

#[test]
fn dispatch_version_produces_output() {
    let args = CliArgs { command: Command::Version, config_path: None, verbose: false };
    assert!(dispatch(&args).is_ok());
}

#[test]
fn dispatch_help_produces_output() {
    let args = CliArgs { command: Command::Help, config_path: None, verbose: false };
    assert!(dispatch(&args).is_ok());
}

#[test]
fn cli_last_config_flag_without_value_clears_path() {
    let args = vec![
        String::from("client"),
        String::from("-c"),
        String::from("/a.conf"),
        String::from("--config"),
    ];
    let parsed = CliArgs::parse_from_slice(&args).expect("parse");
    assert_eq!(None, parsed.config_path);
    assert_eq!(Command::Client, parsed.command);
}

#[test]
fn cli_last_command_word_wins_and_flags_override() {
    let args = vec![String::from("client"), String::from("server"), String::from("-V")];
    let parsed = CliArgs::parse_from_slice(&args).expect("parse");
    assert_eq!(Command::Version, parsed.command);
}

#[test]
fn cli_unknown_command_reports_word() {
    let result = CliArgs::parse_from_slice(&[String::from("serve")]);
    assert_eq!(Err(CliParseError::UnknownCommand(String::from("serve"))), result);
    assert_eq!("unknown command: serve", CliParseError::UnknownCommand(String::from("serve")).message());
    assert_eq!("unknown flag: -x", CliParseError::UnknownFlag(String::from("-x")).message());
    assert_eq!("no command specified", CliParseError::MissingCommand.message());
}

#[test]
fn dispatch_uses_default_config_path() {
    let args = CliArgs { command: Command::Server, config_path: None, verbose: false };
    assert_eq!(
        Ok(Dispatch::RunServer { config_path: String::from("/etc/apate/apate.conf") }),
        dispatch(&args)
    );
    let args = CliArgs { command: Command::Version, config_path: None, verbose: false };
    assert_eq!(Ok(Dispatch::Print(String::from("apate 0.1.0"))), dispatch(&args));
}

#[test]
fn gen_key_line_is_lowercase_hex() {
    let args = CliArgs { command: Command::GenKey, config_path: None, verbose: false };
    match dispatch(&args) {
        Ok(Dispatch::Print(line)) => {
            assert!(line.starts_with("public_key="));
            let hex = &line["public_key=".len()..];
            assert_eq!(64, hex.len());
            assert!(hex.chars().all(|c| c.is_ascii_digit() || ('a'..='f').contains(&c)));
        },
        _ => panic!("gen-key prints a line"),
    }
    assert_eq!(
        "public_key=0001ff00000000000000000000000000000000000000000000000000000000ab",
        apate::cli::commands::gen_key_line(&{
            let mut k = [0u8; 32];
            k[1] = 1;
            k[2] = 0xff;
            k[31] = 0xab;
            k
        })
    );
}

#[test]
fn load_config_from_source_reports_parse_errors() {
    assert_eq!(
        Err(String::from("config parse error: unsupported configuration key: bogus")),
        load_config_from_source("bogus = 1").map(|_| ())
    );
    assert_eq!(
        Err(String::from("config parse error: invalid configuration value for key: transport.fallback_timeout")),
        load_config_from_source("transport.fallback_timeout = 0").map(|_| ())
    );
    assert!(load_config_from_source("client.server = a:1").is_ok());
    assert_eq!(
        "cannot read config /x: gone",
        apate::cli::commands::read_error_message("/x", "gone")
    );
}

#[test]
fn server_reply_follows_probe_gate() {

    let mut coordinator = AuthCoordinator::new(vec![AuthMethod::StaticKey]);
    coordinator.register_backend(AuthMethod::StaticKey, Box::new(StaticKeyBackend::new(vec![b"k".to_vec()])));
    let facade = FacadeResponder::new(String::from("nginx"));
    let methods = vec![AuthMethod::StaticKey];
    let on = ProbeGatePolicy { facade_on_auth_failure: true };
    let off = ProbeGatePolicy { facade_on_auth_failure: false };

    match handle_client_payload(&coordinator, &methods, on, &facade, b"k") {
        ServerReply::AllowTunnel(id) => assert_eq!("static-key", id.subject),
        _ => panic!("the key is accepted"),
    }
    match handle_client_payload(&coordinator, &methods, on, &facade, b"") {
        ServerReply::ServeFacade { bytes, status_code } => {
            assert_eq!(200, status_code);
            assert!(String::from_utf8(bytes).expect("utf8").starts_with("HTTP/1.1 200 OK\r\n"));
        },
        _ => panic!("a probe gets the facade"),
    }
    assert!(matches!(handle_client_payload(&coordinator, &methods, off, &facade, b"x"), ServerReply::Reject));
    assert!(matches!(handle_client_payload(&coordinator, &[], off, &facade, b"k"), ServerReply::AllowTunnel(_)));
}

#[test]
fn server_loop_accepts_on_listener_and_serves_clients() {
    let mut server_loop = ServerLoop::new();
    assert_eq!(server_loop.step_for(LISTENER_TOKEN), ServerStep::Accept);
    assert_eq!(server_loop.next_token(), FIRST_CLIENT_TOKEN);
    let first = server_loop.take_client_token();
    let second = server_loop.take_client_token();
    assert_eq!(first, 100);
    assert_eq!(second, 101);
    assert_eq!(server_loop.next_token(), 102);
    assert_eq!(server_loop.step_for(first), ServerStep::ServeClient(100));
    assert_eq!(server_loop.step_for(7), ServerStep::ServeClient(7));
}

#[test]
fn server_coordinator_enables_the_configured_methods() {
    let coordinator = coordinator_for(vec![AuthMethod::Token, AuthMethod::StaticKey, AuthMethod::StaticKey]);
    assert_eq!(
        Err(AuthError::Rejected),
        coordinator.authenticate(AuthInput { method: AuthMethod::StaticKey, payload: b"any".to_vec() })
    );
    assert_eq!(
        Err(AuthError::UnsupportedBackend { method: AuthMethod::Token }),
        coordinator.authenticate(AuthInput { method: AuthMethod::Token, payload: b"any".to_vec() })
    );
    assert_eq!(
        Err(AuthError::Rejected),
        coordinator.authenticate(AuthInput { method: AuthMethod::StaticKey, payload: vec![1u8] })
    );
    assert_eq!(
        Err(AuthError::EmptyPayload),
        coordinator.authenticate(AuthInput { method: AuthMethod::StaticKey, payload: Vec::new() })
    );
    let none = coordinator_for(vec![AuthMethod::Token]);
    assert_eq!(
        Err(AuthError::UnsupportedBackend { method: AuthMethod::StaticKey }),
        none.authenticate(AuthInput { method: AuthMethod::StaticKey, payload: b"any".to_vec() })
    );
}
