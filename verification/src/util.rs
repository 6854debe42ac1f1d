use vstd::prelude::*;
use crate::text::{chars_of, seq_eq};

verus! {

/// The ways in which a client may prove its identity.
#[derive(Debug, Clone, Copy, PartialEq, Eq, Structural, Hash)]
pub enum AuthMethod {
    StaticKey,
    Token,
    Certificate,
}

/// The configuration spelling of each authentication method.
pub open spec fn auth_method_name(m: AuthMethod) -> Seq<char> {
    match m {
        AuthMethod::StaticKey => "static_key"@,
        AuthMethod::Token => "token"@,
        AuthMethod::Certificate => "certificate"@,
    }
}

/// The method a configuration spelling names, if any.
pub open spec fn auth_method_from_name(s: Seq<char>) -> Option<AuthMethod> {
    if s == "static_key"@ {
        Some(AuthMethod::StaticKey)
    } else if s == "token"@ {
        Some(AuthMethod::Token)
    } else if s == "certificate"@ {
        Some(AuthMethod::Certificate)
    } else {
        None
    }
}

impl AuthMethod {
    pub fn as_str(self) -> (r: &'static str)
        ensures
            r@ == auth_method_name(self),
    {
        match self {
            AuthMethod::StaticKey => "static_key",
            AuthMethod::Token => "token",
            AuthMethod::Certificate => "certificate",
        }
    }

    pub fn parse(value: &[char]) -> (r: Option<AuthMethod>)
        ensures
            r == auth_method_from_name(value@),
    {
        if seq_eq(value, &chars_of("static_key")) {
            Some(AuthMethod::StaticKey)
        } else if seq_eq(value, &chars_of("token")) {
            Some(AuthMethod::Token)
        } else if seq_eq(value, &chars_of("certificate")) {
            Some(AuthMethod::Certificate)
        } else {
            None
        }
    }

    /// The name of the variant, as the method appears in diagnostics.
    pub fn debug_name(self) -> (r: &'static str)
        ensures
            r@ == auth_method_debug_name(self),
    {
        match self {
            AuthMethod::StaticKey => "StaticKey",
            AuthMethod::Token => "Token",
            AuthMethod::Certificate => "Certificate",
        }
    }
}

pub open spec fn auth_method_debug_name(m: AuthMethod) -> Seq<char> {
    match m {
        AuthMethod::StaticKey => "StaticKey"@,
        AuthMethod::Token => "Token"@,
        AuthMethod::Certificate => "Certificate"@,
    }
}

/// Parsing a method's spelling gives the method back.
pub proof fn lemma_auth_method_roundtrip(m: AuthMethod)
    ensures
        auth_method_from_name(auth_method_name(m)) == Some(m),
{
    reveal_strlit("static_key");
    reveal_strlit("token");
    reveal_strlit("certificate");
    assert("static_key"@.len() == 10);
    assert("token"@.len() == 5);
    assert("certificate"@.len() == 11);
}

/// The transports a client may use to reach the server.
#[derive(Debug, Clone, Copy, PartialEq, Eq, Structural)]
pub enum TransportMode {
    Auto,
    Udp,
    Tcp,
    Quic,
}

pub open spec fn transport_mode_name(m: TransportMode) -> Seq<char> {
    match m {
        TransportMode::Auto => "auto"@,
        TransportMode::Udp => "udp"@,
        TransportMode::Tcp => "tcp"@,
        TransportMode::Quic => "quic"@,
    }
}

pub open spec fn transport_mode_from_name(s: Seq<char>) -> Option<TransportMode> {
    if s == "auto"@ {
        Some(TransportMode::Auto)
    } else if s == "udp"@ {
        Some(TransportMode::Udp)
    } else if s == "tcp"@ {
        Some(TransportMode::Tcp)
    } else if s == "quic"@ {
        Some(TransportMode::Quic)
    } else {
        None
    }
}

impl TransportMode {
    pub fn as_str(self) -> (r: &'static str)
        ensures
            r@ == transport_mode_name(self),
    {
        match self {
            TransportMode::Auto => "auto",
            TransportMode::Udp => "udp",
            TransportMode::Tcp => "tcp",
            TransportMode::Quic => "quic",
        }
    }

    pub fn parse(value: &[char]) -> (r: Option<TransportMode>)
        ensures
            r == transport_mode_from_name(value@),
    {
        if seq_eq(value, &chars_of("auto")) {
            Some(TransportMode::Auto)
        } else if seq_eq(value, &chars_of("udp")) {
            Some(TransportMode::Udp)
        } else if seq_eq(value, &chars_of("tcp")) {
            Some(TransportMode::Tcp)
        } else if seq_eq(value, &chars_of("quic")) {
            Some(TransportMode::Quic)
        } else {
            None
        }
    }
}

/// Parsing a transport mode's spelling gives the mode back.
pub proof fn lemma_transport_mode_roundtrip(m: TransportMode)
    ensures
        transport_mode_from_name(transport_mode_name(m)) == Some(m),
{
    reveal_strlit("auto");
    reveal_strlit("udp");
    reveal_strlit("tcp");
    reveal_strlit("quic");
    assert("udp"@ != "tcp"@) by {
        assert("udp"@[0] != "tcp"@[0]);
    }
    assert("auto"@.len() == 4);
    assert("udp"@.len() == 3);
    assert("quic"@.len() == 4);
    assert("auto"@ != "quic"@) by {
        assert("auto"@[0] != "quic"@[0]);
    }
}

} // verus!
