use vstd::prelude::*;
use vstd::string::*;
use crate::{config_error_message, ConfigErrorView};
use crate::auth::backend::{first_backend_index, one_per_method};
use crate::auth::static_key::{static_key_decision, StaticKeyBackend};
use crate::auth::{
    evaluate_probe_gate, AuthBackend, AuthError, AuthIdentity, AuthInput, AuthInputView, AuthCoordinator, ProbeGatePolicy,
    ProbeGateResult,
};
use crate::auth::common_crypto::{hex_encode, push_hex};
use crate::cli::args::{CliArgs, Command};
use crate::config::parser::{parse_config, parse_config_spec, AppConfigView};
use crate::config::types::AppConfig;
use crate::crypto::kx::{derive_public_key, x25519_public};
use crate::crypto::rng::os_seed;
use crate::stealth::facade::FacadeResponder;
use crate::text::{chars_of, push_all, push_str, string_from_chars};
use crate::util::AuthMethod;

verus! {

/// Where the configuration is read from when no path is given.
pub const DEFAULT_CONFIG_PATH: &'static str = "/etc/apate/apate.conf";

/// The configuration file the command line names, or the default one.
pub fn config_path(args: &CliArgs) -> (r: String)
    ensures
        r@ == match args.config_path {
            Some(p) => p@,
            None => DEFAULT_CONFIG_PATH@,
        },
{
    match &args.config_path {
        Some(p) => string_from_chars(&chars_of(p.as_str())),
        None => String::from_str(DEFAULT_CONFIG_PATH),
    }
}

/// The report of a configuration file that could not be read.
pub fn read_error_message(path: &str, reason: &str) -> (r: String)
    ensures
        r@ == "cannot read config "@ + path@ + ": "@ + reason@,
{
    let mut out: Vec<char> = Vec::new();
    push_str(&mut out, "cannot read config ");
    push_str(&mut out, path);
    push_str(&mut out, ": ");
    push_str(&mut out, reason);
    string_from_chars(&out)
}

/// What loading a configuration text gives: the configuration, or the report of the first
/// error, marked as a parse or a validation error.
pub open spec fn load_config_spec(source: Seq<char>) -> Result<AppConfigView, Seq<char>> {
    match parse_config_spec(source) {
        Err(e) => Err("config parse error: "@ + config_error_message(e)),
        Ok(c) => if c.fallback_timeout_secs == 0 {
            Err("config validation error: "@ + config_error_message(
                ConfigErrorView::InvalidValue("transport.fallback_timeout"@),
            ))
        } else {
            Ok(c)
        },
    }
}

/// Parses and validates a configuration text.
pub fn load_config_from_source(source: &str) -> (r: Result<AppConfig, String>)
    ensures
        r matches Ok(c) ==> load_config_spec(source@) == Ok::<AppConfigView, Seq<char>>(c@),
        r matches Err(m) ==> load_config_spec(source@) == Err::<AppConfigView, Seq<char>>(m@),
{
    let config = match parse_config(source) {
        Ok(c) => c,
        Err(e) => {
            let mut out: Vec<char> = Vec::new();
            push_str(&mut out, "config parse error: ");
            push_str(&mut out, e.message().as_str());
            return Err(string_from_chars(&out));
        },
    };
    match config.validate() {
        Ok(()) => Ok(config),
        Err(e) => {
            let mut out: Vec<char> = Vec::new();
            push_str(&mut out, "config validation error: ");
            push_str(&mut out, e.message().as_str());
            Err(string_from_chars(&out))
        },
    }
}

/// The usage text.
pub open spec fn help_text_spec() -> Seq<char> {
    "apate - stealth VPN tunnel\n\nUSAGE:\n    apate <COMMAND> [OPTIONS]\n\nCOMMANDS:\n    client      Start in client mode\n    server      Start in server mode\n    gen-key     Generate a new X25519 keypair\n    version     Print version\n    help        Print this help\n\nOPTIONS:\n    -c, --config <PATH>    Config file path (default: /etc/apate/apate.conf)\n    -v, --verbose          Enable verbose logging\n    -h, --help             Print help\n    -V, --version          Print version"@
}

pub fn help_text() -> (r: &'static str)
    ensures
        r@ == help_text_spec(),
{
    "apate - stealth VPN tunnel\n\nUSAGE:\n    apate <COMMAND> [OPTIONS]\n\nCOMMANDS:\n    client      Start in client mode\n    server      Start in server mode\n    gen-key     Generate a new X25519 keypair\n    version     Print version\n    help        Print this help\n\nOPTIONS:\n    -c, --config <PATH>    Config file path (default: /etc/apate/apate.conf)\n    -v, --verbose          Enable verbose logging\n    -h, --help             Print help\n    -V, --version          Print version"
}

/// The version line for a package version.
pub fn version_line(version: &str) -> (r: String)
    ensures
        r@ == "apate "@ + version@,
{
    let mut out: Vec<char> = Vec::new();
    push_str(&mut out, "apate ");
    push_str(&mut out, version);
    string_from_chars(&out)
}

/// The line that reports a public key, in lowercase hex.
pub fn gen_key_line(public: &[u8; 32]) -> (r: String)
    ensures
        r@ == "public_key="@ + hex_encode(public@),
{
    let mut out: Vec<char> = Vec::new();
    push_str(&mut out, "public_key=");
    push_hex(&mut out, public.as_slice());
    string_from_chars(&out)
}

/// A new X25519 key from `os_seed`, reported by its public half.
pub fn gen_key() -> (r: String)
    ensures
        exists|secret: Seq<u8>|
            secret.len() == 32 && r@ == "public_key="@ + hex_encode(#[trigger] x25519_public(secret)),
{
    let secret = os_seed();
    let public = derive_public_key(secret);
    let r = gen_key_line(&public);
    assert(r@ == "public_key="@ + hex_encode(x25519_public(secret@)));
    r
}

/// What the server does with the first bytes a client sent.
pub enum ServerReply {
    /// The client authenticated: the tunnel is open to it.
    AllowTunnel(AuthIdentity),
    /// A probe: answer with the decoy page's bytes and status.
    ServeFacade { bytes: Vec<u8>, status_code: u16 },
    /// A probe that is turned away.
    Reject,
}

/// The server's answer to a client's first bytes: they are authenticated with the first
/// configured method (the static key where none is), an empty read failing at once; the
/// probe gate then decides, and a probe answered with the decoy gets the page for `/`.
pub fn handle_client_payload(
    coordinator: &AuthCoordinator,
    methods: &[AuthMethod],
    policy: ProbeGatePolicy,
    facade: &FacadeResponder,
    payload: &[u8],
) -> (r: ServerReply)
    ensures
        ({
            let method = if methods@.len() > 0 {
                methods@[0]
            } else {
                AuthMethod::StaticKey
            };
            let decision = if payload@.len() > 0 {
                coordinator.spec_authenticate(
                    crate::auth::AuthInputView { method, payload: payload@ },
                )
            } else {
                Err(AuthError::EmptyPayload)
            };
            match decision {
                Ok(id) => r matches ServerReply::AllowTunnel(i) && i@ == id,
                Err(_) => if policy.facade_on_auth_failure {
                    r matches ServerReply::ServeFacade { bytes, status_code } && status_code == 200
                        && bytes@ == vstd::utf8::encode_utf8(
                        crate::stealth::facade::probe_http_text(facade.spec_server_name(), "/"@),
                    )
                } else {
                    r is Reject
                },
            }
        }),
{
    let method = if methods.len() > 0 {
        methods[0]
    } else {
        AuthMethod::StaticKey
    };
    let result = if payload.len() > 0 {
        let input = AuthInput { method, payload: crate::text::copy_bytes(payload) };
        coordinator.authenticate(input)
    } else {
        Err(AuthError::EmptyPayload)
    };
    match evaluate_probe_gate(result, policy) {
        ProbeGateResult::AllowTunnel(identity) => ServerReply::AllowTunnel(identity),
        ProbeGateResult::ServeFacade => {
            let response = facade.respond_for_probe("/");
            let bytes = response.to_http_bytes();
            proof {
                crate::stealth::facade::lemma_probe_http_text(
                    response,
                    facade.spec_server_name(),
                    "/"@,
                );
            }
            ServerReply::ServeFacade { bytes, status_code: response.status_code }
        },
        ProbeGateResult::Reject => ServerReply::Reject,
    }
}

/// The version the program reports.
pub const APATE_VERSION: &'static str = "0.1.0";

/// What running a command comes to: text to print, or one of the two long-running modes with
/// the configuration file to load.
#[derive(Debug, Clone, PartialEq, Eq)]
pub enum Dispatch {
    Print(String),
    RunClient { config_path: String },
    RunServer { config_path: String },
}

/// Decides what a command line asks for: the client and server modes with their
/// configuration path, the version line, the usage text, or a new key's public half.
pub fn dispatch(args: &CliArgs) -> (r: Result<Dispatch, String>)
    ensures
        r is Ok,
        r matches Ok(d) ==> match args.command {
            Command::Client => d matches Dispatch::RunClient { config_path } && config_path@
                == match args.config_path {
                Some(p) => p@,
                None => DEFAULT_CONFIG_PATH@,
            },
            Command::Server => d matches Dispatch::RunServer { config_path } && config_path@
                == match args.config_path {
                Some(p) => p@,
                None => DEFAULT_CONFIG_PATH@,
            },
            Command::GenKey => d matches Dispatch::Print(line) && exists|secret: Seq<u8>|
                secret.len() == 32 && line@ == "public_key="@ + hex_encode(
                    #[trigger] x25519_public(secret),
                ),
            Command::Version => d matches Dispatch::Print(line) && line@ == "apate "@
                + APATE_VERSION@,
            Command::Help => d matches Dispatch::Print(text) && text@ == help_text_spec(),
        },
{
    match args.command {
        Command::Client => Ok(Dispatch::RunClient { config_path: config_path(args) }),
        Command::Server => Ok(Dispatch::RunServer { config_path: config_path(args) }),
        Command::GenKey => Ok(Dispatch::Print(gen_key())),
        Command::Version => Ok(Dispatch::Print(version_line(APATE_VERSION))),
        Command::Help => Ok(Dispatch::Print(String::from_str(help_text()))),
    }
}

/// The token under which the listening socket is registered.
pub const LISTENER_TOKEN: u64 = 1;

/// The token under which the first accepted client is registered.
pub const FIRST_CLIENT_TOKEN: u64 = 100;

/// What the server loop does for a token that became ready.
#[derive(Debug, Clone, Copy, PartialEq, Eq, Structural)]
pub enum ServerStep {
    /// The listener is ready: accept a connection.
    Accept,
    /// A client is ready: read its first bytes and answer them.
    ServeClient(u64),
}

/// The step taken for a ready token.
pub open spec fn server_step_spec(token: u64) -> ServerStep {
    if token == LISTENER_TOKEN {
        ServerStep::Accept
    } else {
        ServerStep::ServeClient(token)
    }
}

/// The server loop's own state: the token the next accepted client is registered under.
pub struct ServerLoop {
    next_token: u64,
}

impl ServerLoop {
    #[verifier::type_invariant]
    spec fn tokens_above_listener(self) -> bool {
        self.next_token >= FIRST_CLIENT_TOKEN
    }

    pub closed spec fn spec_next_token(self) -> u64 {
        self.next_token
    }

    pub fn new() -> (r: Self)
        ensures
            r.spec_next_token() == FIRST_CLIENT_TOKEN,
    {
        ServerLoop { next_token: FIRST_CLIENT_TOKEN }
    }

    /// The token the next accepted client gets.
    pub fn next_token(&self) -> (r: u64)
        ensures
            r == self.spec_next_token(),
            r >= FIRST_CLIENT_TOKEN,
    {
        proof {
            use_type_invariant(self);
        }
        self.next_token
    }

    /// The listener's readiness means a new connection; any other token is a client's.
    pub fn step_for(&self, token: u64) -> (r: ServerStep)
        ensures
            r == server_step_spec(token),
    {
        if token == LISTENER_TOKEN {
            ServerStep::Accept
        } else {
            ServerStep::ServeClient(token)
        }
    }

    /// Hands out the token for a newly accepted client.
    pub fn take_client_token(&mut self) -> (r: u64)
        requires
            old(self).spec_next_token() < u64::MAX,
        ensures
            r == old(self).spec_next_token(),
            final(self).spec_next_token() == r + 1,
            r >= FIRST_CLIENT_TOKEN,
    {
        proof {
            use_type_invariant(&*self);
        }
        let token = self.next_token;
        self.next_token = token + 1;
        token
    }
}

/// A token handed to a client is served as a client's, never taken for the listener's, and
/// the tokens handed out after it are all greater.
pub proof fn lemma_client_token_is_client(before: ServerLoop, token: u64, after: ServerLoop)
    requires
        token == before.spec_next_token(),
        after.spec_next_token() == token + 1,
        token >= FIRST_CLIENT_TOKEN,
    ensures
        server_step_spec(token) == ServerStep::ServeClient(token),
        token < after.spec_next_token(),
{
}

/// The server's coordinator: the configured methods enabled, and for the static-key method,
/// where it is configured, a static-key backend that holds no key (so it admits no one until
/// keys are given to it).
pub fn coordinator_for(methods: Vec<AuthMethod>) -> (r: AuthCoordinator)
    ensures
        r.spec_enabled() == methods@,
        one_per_method(r.spec_backends()),
        r.spec_backends().len() == if methods@.contains(AuthMethod::StaticKey) {
            1int
        } else {
            0int
        },
        forall|j: int|
            0 <= j < r.spec_backends().len() ==> #[trigger] r.spec_backends()[j].0
                == AuthMethod::StaticKey,
        forall|input: AuthInputView|
            #[trigger] r.spec_authenticate(input) == if methods@.contains(input.method)
                && input.method == AuthMethod::StaticKey {
                static_key_decision(Seq::empty(), input)
            } else {
                Err(AuthError::UnsupportedBackend { method: input.method })
            },
{
    let mut coordinator = AuthCoordinator::new(methods.clone());
    let mut k: usize = 0;
    while k < methods.len()
        invariant
            k <= methods@.len(),
            coordinator.spec_enabled() == methods@,
            one_per_method(coordinator.spec_backends()),
            coordinator.spec_backends().len() == if methods@.take(k as int).contains(
                AuthMethod::StaticKey,
            ) {
                1int
            } else {
                0int
            },
            forall|j: int|
                0 <= j < coordinator.spec_backends().len() ==> #[trigger] coordinator.spec_backends()[j].0
                    == AuthMethod::StaticKey,
            forall|input: AuthInputView|
                #[trigger] coordinator.spec_authenticate(input) == if methods@.contains(input.method)
                    && input.method == AuthMethod::StaticKey && methods@.take(k as int).contains(
                    AuthMethod::StaticKey,
                ) {
                    static_key_decision(Seq::empty(), input)
                } else {
                    Err(AuthError::UnsupportedBackend { method: input.method })
                },
        decreases methods@.len() - k,
    {
        proof {
            assert(methods@.take(k + 1) =~= methods@.take(k as int).push(methods@[k as int]));
        }
        proof {
            let t = methods@.take(k as int);
            let t1 = methods@.take(k + 1);
            assert(t1.contains(AuthMethod::StaticKey) <==> (t.contains(
                AuthMethod::StaticKey,
            ) || methods@[k as int] == AuthMethod::StaticKey)) by {
                if t1.contains(AuthMethod::StaticKey) {
                    let j = choose|j: int| 0 <= j < t1.len() && t1[j] == AuthMethod::StaticKey;
                    if j < k {
                        assert(t[j] == AuthMethod::StaticKey);
                    }
                }
                if t.contains(AuthMethod::StaticKey) {
                    let j = choose|j: int| 0 <= j < t.len() && t[j] == AuthMethod::StaticKey;
                    assert(t1[j] == AuthMethod::StaticKey);
                }
                if methods@[k as int] == AuthMethod::StaticKey {
                    assert(t1[k as int] == AuthMethod::StaticKey);
                }
            }
            let bs = coordinator.spec_backends();
            if bs.len() == 1 {
                assert(bs[0].0 == AuthMethod::StaticKey);
                assert(first_backend_index(bs, AuthMethod::StaticKey, 0) == Some(0int));
            } else {
                assert(first_backend_index(bs, AuthMethod::StaticKey, 0) is None);
            }
        }
        if methods[k] == AuthMethod::StaticKey {
            let backend = StaticKeyBackend::new(Vec::new());
            proof {
                assert(backend.spec_keys() =~= Seq::<Seq<u8>>::empty());
            }
            coordinator.register_static_key_backend(backend);
        }
        k = k + 1;
    }
    proof {
        assert(methods@.take(methods@.len() as int) =~= methods@);
    }
    coordinator
}

} // verus!
