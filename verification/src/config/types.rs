use vstd::prelude::*;
use vstd::string::*;
use crate::text::{chars_of, seq_eq, trim, trim_chars};
use crate::util::{AuthMethod, TransportMode};
use crate::{ConfigError, ConfigErrorView};

verus! {

/// Whether all traffic goes through the tunnel or only listed networks.
#[derive(Debug, Clone, Copy, PartialEq, Eq, Structural)]
pub enum RoutingMode {
    Full,
    Split,
}

pub open spec fn routing_mode_name(m: RoutingMode) -> Seq<char> {
    match m {
        RoutingMode::Full => "full"@,
        RoutingMode::Split => "split"@,
    }
}

pub open spec fn routing_mode_from_name(s: Seq<char>) -> Option<RoutingMode> {
    if s == "full"@ {
        Some(RoutingMode::Full)
    } else if s == "split"@ {
        Some(RoutingMode::Split)
    } else {
        None
    }
}

impl RoutingMode {
    pub fn as_str(self) -> (r: &'static str)
        ensures
            r@ == routing_mode_name(self),
    {
        match self {
            RoutingMode::Full => "full",
            RoutingMode::Split => "split",
        }
    }

    pub fn parse(value: &str) -> (r: Option<RoutingMode>)
        ensures
            r == routing_mode_from_name(value@),
    {
        let v = chars_of(value);
        Self::parse_chars(&v)
    }

    pub fn parse_chars(value: &[char]) -> (r: Option<RoutingMode>)
        ensures
            r == routing_mode_from_name(value@),
    {
        if seq_eq(value, &chars_of("full")) {
            Some(RoutingMode::Full)
        } else if seq_eq(value, &chars_of("split")) {
            Some(RoutingMode::Split)
        } else {
            None
        }
    }
}

/// Parsing the spelling of a routing mode gives the mode back.
pub proof fn lemma_routing_mode_roundtrip(m: RoutingMode)
    ensures
        routing_mode_from_name(routing_mode_name(m)) == Some(m),
{
    reveal_strlit("full");
    reveal_strlit("split");
    assert("full"@.len() == 4);
    assert("split"@.len() == 5);
}

/// How name lookups leave the machine.
#[derive(Debug, Clone, Copy, PartialEq, Eq, Structural)]
pub enum DnsMode {
    Doh,
    Plain,
    Fallback,
}

pub open spec fn dns_mode_name(m: DnsMode) -> Seq<char> {
    match m {
        DnsMode::Doh => "doh"@,
        DnsMode::Plain => "plain"@,
        DnsMode::Fallback => "fallback"@,
    }
}

pub open spec fn dns_mode_from_name(s: Seq<char>) -> Option<DnsMode> {
    if s == "doh"@ {
        Some(DnsMode::Doh)
    } else if s == "plain"@ {
        Some(DnsMode::Plain)
    } else if s == "fallback"@ {
        Some(DnsMode::Fallback)
    } else {
        None
    }
}

impl DnsMode {
    pub fn as_str(self) -> (r: &'static str)
        ensures
            r@ == dns_mode_name(self),
    {
        match self {
            DnsMode::Doh => "doh",
            DnsMode::Plain => "plain",
            DnsMode::Fallback => "fallback",
        }
    }

    pub fn parse(value: &str) -> (r: Option<DnsMode>)
        ensures
            r == dns_mode_from_name(value@),
    {
        let v = chars_of(value);
        Self::parse_chars(&v)
    }

    pub fn parse_chars(value: &[char]) -> (r: Option<DnsMode>)
        ensures
            r == dns_mode_from_name(value@),
    {
        if seq_eq(value, &chars_of("doh")) {
            Some(DnsMode::Doh)
        } else if seq_eq(value, &chars_of("plain")) {
            Some(DnsMode::Plain)
        } else if seq_eq(value, &chars_of("fallback")) {
            Some(DnsMode::Fallback)
        } else {
            None
        }
    }
}

/// Parsing the spelling of a DNS mode gives the mode back.
pub proof fn lemma_dns_mode_roundtrip(m: DnsMode)
    ensures
        dns_mode_from_name(dns_mode_name(m)) == Some(m),
{
    reveal_strlit("doh");
    reveal_strlit("plain");
    reveal_strlit("fallback");
    assert("doh"@.len() == 3);
    assert("plain"@.len() == 5);
    assert("fallback"@.len() == 8);
}

#[derive(Debug, Clone, PartialEq, Eq)]
pub struct ClientConfig {
    pub server: String,
}

impl Default for ClientConfig {
    fn default() -> (r: Self)
        ensures
            r.server@ == Seq::<char>::empty(),
    {
        ClientConfig { server: String::new() }
    }
}

#[derive(Debug, Clone, PartialEq, Eq)]
pub struct ServerConfig {
    pub listen: String,
}

impl Default for ServerConfig {
    fn default() -> (r: Self)
        ensures
            r.listen@ == "0.0.0.0:443"@,
    {
        ServerConfig { listen: String::from_str("0.0.0.0:443") }
    }
}

#[derive(Debug, Clone, PartialEq, Eq)]
pub struct TransportConfig {
    pub mode: TransportMode,
    pub fallback_timeout_secs: u16,
}

impl Default for TransportConfig {
    fn default() -> (r: Self)
        ensures
            r.mode == TransportMode::Auto,
            r.fallback_timeout_secs == 3,
    {
        TransportConfig { mode: TransportMode::Auto, fallback_timeout_secs: 3 }
    }
}

#[derive(Debug, Clone, PartialEq, Eq)]
pub struct StealthConfig {
    pub profile: String,
    pub profile_path: Option<String>,
    pub facade_on_auth_failure: bool,
}

impl Default for StealthConfig {
    fn default() -> (r: Self)
        ensures
            r.profile@ == "chrome_131"@,
            r.profile_path is None,
            r.facade_on_auth_failure,
    {
        StealthConfig {
            profile: String::from_str("chrome_131"),
            profile_path: None,
            facade_on_auth_failure: true,
        }
    }
}

#[derive(Debug, Clone, PartialEq, Eq)]
pub struct AuthConfig {
    pub methods: Vec<AuthMethod>,
}

impl Default for AuthConfig {
    fn default() -> (r: Self)
        ensures
            r.methods@ == Seq::<AuthMethod>::empty(),
    {
        AuthConfig { methods: Vec::new() }
    }
}

#[derive(Debug, Clone, PartialEq, Eq)]
pub struct CryptoConfig {
    pub post_quantum: bool,
    pub rekey_interval_secs: u32,
    pub rekey_interval_bytes: u64,
}

impl Default for CryptoConfig {
    fn default() -> (r: Self)
        ensures
            r.post_quantum,
            r.rekey_interval_secs == 60,
            r.rekey_interval_bytes == 1_073_741_824,
    {
        CryptoConfig { post_quantum: true, rekey_interval_secs: 60, rekey_interval_bytes: 1_073_741_824 }
    }
}

#[derive(Debug, Clone, PartialEq, Eq)]
pub struct RoutingConfig {
    pub mode: RoutingMode,
}

impl Default for RoutingConfig {
    fn default() -> (r: Self)
        ensures
            r.mode == RoutingMode::Full,
    {
        RoutingConfig { mode: RoutingMode::Full }
    }
}

#[derive(Debug, Clone, PartialEq, Eq)]
pub struct DnsConfig {
    pub mode: DnsMode,
}

impl Default for DnsConfig {
    fn default() -> (r: Self)
        ensures
            r.mode == DnsMode::Doh,
    {
        DnsConfig { mode: DnsMode::Doh }
    }
}

#[derive(Debug, Clone, PartialEq, Eq)]
pub struct AppConfig {
    pub client: ClientConfig,
    pub server: ServerConfig,
    pub transport: TransportConfig,
    pub stealth: StealthConfig,
    pub auth: AuthConfig,
    pub crypto: CryptoConfig,
    pub routing: RoutingConfig,
    pub dns: DnsConfig,
}

/// The configuration that holds every default value.
pub open spec fn is_default_config(c: AppConfig) -> bool {
    &&& c.client.server@ == Seq::<char>::empty()
    &&& c.server.listen@ == "0.0.0.0:443"@
    &&& c.transport.mode == TransportMode::Auto
    &&& c.transport.fallback_timeout_secs == 3
    &&& c.stealth.profile@ == "chrome_131"@
    &&& c.stealth.profile_path is None
    &&& c.stealth.facade_on_auth_failure
    &&& c.auth.methods@ == Seq::<AuthMethod>::empty()
    &&& c.crypto.post_quantum
    &&& c.crypto.rekey_interval_secs == 60
    &&& c.crypto.rekey_interval_bytes == 1_073_741_824
    &&& c.routing.mode == RoutingMode::Full
    &&& c.dns.mode == DnsMode::Doh
}

impl Default for AppConfig {
    fn default() -> (r: Self)
        ensures
            is_default_config(r),
    {
        AppConfig {
            client: ClientConfig::default(),
            server: ServerConfig::default(),
            transport: TransportConfig::default(),
            stealth: StealthConfig::default(),
            auth: AuthConfig::default(),
            crypto: CryptoConfig::default(),
            routing: RoutingConfig::default(),
            dns: DnsConfig::default(),
        }
    }
}

impl AppConfig {
    pub fn validate(&self) -> (r: Result<(), ConfigError>)
        ensures
            r is Ok <==> self.transport.fallback_timeout_secs != 0,
            r matches Err(e) ==> e@ == ConfigErrorView::InvalidValue(
                "transport.fallback_timeout"@,
            ),
    {
        if self.transport.fallback_timeout_secs == 0 {
            return Err(ConfigError::invalid_value("transport.fallback_timeout"));
        }
        Ok(())
    }

    pub fn validate_client(&self) -> (r: Result<(), ConfigError>)
        ensures
            r is Ok <==> self.transport.fallback_timeout_secs != 0 && trim(self.client.server@).len()
                > 0,
            r matches Err(e) ==> if self.transport.fallback_timeout_secs == 0 {
                e@ == ConfigErrorView::InvalidValue("transport.fallback_timeout"@)
            } else {
                e@ == ConfigErrorView::MissingRequiredKey("client.server"@)
            },
    {
        self.validate()?;
        let server = chars_of(self.client.server.as_str());
        if trim_chars(&server).len() == 0 {
            return Err(ConfigError::missing_required_key("client.server"));
        }
        Ok(())
    }

    pub fn validate_server(&self) -> (r: Result<(), ConfigError>)
        ensures
            r is Ok <==> self.transport.fallback_timeout_secs != 0 && trim(self.server.listen@).len()
                > 0 && self.auth.methods@.len() > 0,
            r matches Err(e) ==> if self.transport.fallback_timeout_secs == 0 {
                e@ == ConfigErrorView::InvalidValue("transport.fallback_timeout"@)
            } else if trim(self.server.listen@).len() == 0 {
                e@ == ConfigErrorView::MissingRequiredKey("server.listen"@)
            } else {
                e@ == ConfigErrorView::MissingRequiredKey("auth.methods"@)
            },
    {
        self.validate()?;
        let listen = chars_of(self.server.listen.as_str());
        if trim_chars(&listen).len() == 0 {
            return Err(ConfigError::missing_required_key("server.listen"));
        }
        if self.auth.methods.len() == 0 {
            return Err(ConfigError::missing_required_key("auth.methods"));
        }
        Ok(())
    }
}

} // verus!
