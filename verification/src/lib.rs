use vstd::prelude::*;
use vstd::string::*;

pub mod auth;
pub mod cli;
pub mod config;
pub mod crypto;
pub mod noise;
pub mod routing;
pub mod runtime;
pub mod stealth;
pub mod text;
pub mod util;

use crate::auth::{auth_error_message, AuthError};
use crate::noise::{security_error_message, SecurityError};

verus! {

/// The name under which the program identifies itself.
pub const APATE_NAME: &'static str = "apate";

/// Errors found while reading or validating the application configuration.
#[derive(Debug, Clone, PartialEq, Eq)]
pub enum ConfigError {
    MissingRequiredKey { key: String },
    InvalidValue { key: String },
    UnsupportedKey { key: String },
}

/// Errors of the event-loop runtime.
#[derive(Debug, Clone, PartialEq, Eq)]
pub enum RuntimeError {
    BackendUnavailable { backend: String },
    EventLoopStartFailed,
    ShutdownTimeout,
}

/// The error kinds of the configuration, with the key each one names.
pub enum ConfigErrorView {
    MissingRequiredKey(Seq<char>),
    InvalidValue(Seq<char>),
    UnsupportedKey(Seq<char>),
}

impl View for ConfigError {
    type V = ConfigErrorView;

    open spec fn view(&self) -> ConfigErrorView {
        match self {
            ConfigError::MissingRequiredKey { key } => ConfigErrorView::MissingRequiredKey(key@),
            ConfigError::InvalidValue { key } => ConfigErrorView::InvalidValue(key@),
            ConfigError::UnsupportedKey { key } => ConfigErrorView::UnsupportedKey(key@),
        }
    }
}

/// The text with which a configuration error is reported.
pub open spec fn config_error_message(e: ConfigErrorView) -> Seq<char> {
    match e {
        ConfigErrorView::MissingRequiredKey(k) => "missing required configuration key: "@ + k,
        ConfigErrorView::InvalidValue(k) => "invalid configuration value for key: "@ + k,
        ConfigErrorView::UnsupportedKey(k) => "unsupported configuration key: "@ + k,
    }
}

/// The text with which a runtime error is reported.
pub open spec fn runtime_error_message(e: RuntimeError) -> Seq<char> {
    match e {
        RuntimeError::BackendUnavailable { backend } => "runtime backend unavailable: "@ + backend@,
        RuntimeError::EventLoopStartFailed => "event loop start failed"@,
        RuntimeError::ShutdownTimeout => "runtime shutdown timed out"@,
    }
}

impl RuntimeError {
    /// The text with which this error is reported.
    pub fn message(&self) -> (r: String)
        ensures
            r@ == runtime_error_message(*self),
    {
        match self {
            RuntimeError::BackendUnavailable { backend } => {
                let mut out: Vec<char> = Vec::new();
                crate::text::push_str(&mut out, "runtime backend unavailable: ");
                crate::text::push_str(&mut out, backend.as_str());
                crate::text::string_from_chars(&out)
            },
            RuntimeError::EventLoopStartFailed => String::from_str("event loop start failed"),
            RuntimeError::ShutdownTimeout => String::from_str("runtime shutdown timed out"),
        }
    }
}

impl ConfigError {
    /// The text with which this error is reported.
    pub fn message(&self) -> (r: String)
        ensures
            r@ == config_error_message(self@),
    {
        let mut out: Vec<char> = Vec::new();
        match self {
            ConfigError::MissingRequiredKey { key } => {
                crate::text::push_str(&mut out, "missing required configuration key: ");
                crate::text::push_str(&mut out, key.as_str());
            },
            ConfigError::InvalidValue { key } => {
                crate::text::push_str(&mut out, "invalid configuration value for key: ");
                crate::text::push_str(&mut out, key.as_str());
            },
            ConfigError::UnsupportedKey { key } => {
                crate::text::push_str(&mut out, "unsupported configuration key: ");
                crate::text::push_str(&mut out, key.as_str());
            },
        }
        crate::text::string_from_chars(&out)
    }

    pub fn missing_required_key(key: &str) -> (e: ConfigError)
        ensures
            e@ == ConfigErrorView::MissingRequiredKey(key@),
    {
        ConfigError::MissingRequiredKey { key: String::from_str(key) }
    }

    pub fn invalid_value(key: &str) -> (e: ConfigError)
        ensures
            e@ == ConfigErrorView::InvalidValue(key@),
    {
        ConfigError::InvalidValue { key: String::from_str(key) }
    }
}

/// Any failure of the library, reported with the text of the failure it wraps.
#[derive(Debug, Clone, PartialEq, Eq)]
pub enum ApateError {
    Config(ConfigError),
    Auth(AuthError),
    Security(SecurityError),
    Runtime(RuntimeError),
}

/// The text with which a failure of the library is reported: that of the failure it wraps.
pub open spec fn apate_error_message(e: ApateError) -> Seq<char> {
    match e {
        ApateError::Config(c) => config_error_message(c@),
        ApateError::Auth(a) => auth_error_message(a),
        ApateError::Security(s) => security_error_message(s),
        ApateError::Runtime(r) => runtime_error_message(r),
    }
}

impl ApateError {
    /// The text with which this failure is reported.
    pub fn message(&self) -> (r: String)
        ensures
            r@ == apate_error_message(*self),
    {
        match self {
            ApateError::Config(c) => c.message(),
            ApateError::Auth(a) => a.message(),
            ApateError::Security(s) => s.message(),
            ApateError::Runtime(r) => r.message(),
        }
    }
}

impl From<ConfigError> for ApateError {
    fn from(e: ConfigError) -> (r: Self) {
        ApateError::Config(e)
    }
}

impl vstd::std_specs::convert::FromSpecImpl<ConfigError> for ApateError {
    open spec fn obeys_from_spec() -> bool {
        true
    }

    open spec fn from_spec(e: ConfigError) -> ApateError {
        ApateError::Config(e)
    }
}

impl From<AuthError> for ApateError {
    fn from(e: AuthError) -> (r: Self) {
        ApateError::Auth(e)
    }
}

impl vstd::std_specs::convert::FromSpecImpl<AuthError> for ApateError {
    open spec fn obeys_from_spec() -> bool {
        true
    }

    open spec fn from_spec(e: AuthError) -> ApateError {
        ApateError::Auth(e)
    }
}

impl From<SecurityError> for ApateError {
    fn from(e: SecurityError) -> (r: Self) {
        ApateError::Security(e)
    }
}

impl vstd::std_specs::convert::FromSpecImpl<SecurityError> for ApateError {
    open spec fn obeys_from_spec() -> bool {
        true
    }

    open spec fn from_spec(e: SecurityError) -> ApateError {
        ApateError::Security(e)
    }
}

impl From<RuntimeError> for ApateError {
    fn from(e: RuntimeError) -> (r: Self) {
        ApateError::Runtime(e)
    }
}

impl vstd::std_specs::convert::FromSpecImpl<RuntimeError> for ApateError {
    open spec fn obeys_from_spec() -> bool {
        true
    }

    open spec fn from_spec(e: RuntimeError) -> ApateError {
        ApateError::Runtime(e)
    }
}

} // verus!
