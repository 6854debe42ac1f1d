pub mod backend;
pub mod certificate;
pub mod common_crypto;
pub mod static_key;
pub mod token;

pub use backend::AuthCoordinator;

use vstd::prelude::*;
use vstd::string::*;
use crate::text::{push_str, string_from_chars};
use crate::util::{AuthMethod, auth_method_debug_name};

verus! {

/// What a client presents: the method it claims and its credential.
#[derive(Debug, Clone, PartialEq, Eq)]
pub struct AuthInput {
    pub method: AuthMethod,
    pub payload: Vec<u8>,
}

pub struct AuthInputView {
    pub method: AuthMethod,
    pub payload: Seq<u8>,
}

impl View for AuthInput {
    type V = AuthInputView;

    open spec fn view(&self) -> AuthInputView {
        AuthInputView { method: self.method, payload: self.payload@ }
    }
}

/// Who a client turned out to be, and how that was established.
#[derive(Debug, Clone, PartialEq, Eq)]
pub struct AuthIdentity {
    pub subject: String,
    pub method: AuthMethod,
}

pub struct AuthIdentityView {
    pub subject: Seq<char>,
    pub method: AuthMethod,
}

impl View for AuthIdentity {
    type V = AuthIdentityView;

    open spec fn view(&self) -> AuthIdentityView {
        AuthIdentityView { subject: self.subject@, method: self.method }
    }
}

/// Why a client was not admitted.
#[derive(Debug, Clone, Copy, PartialEq, Eq, Structural)]
pub enum AuthError {
    EmptyPayload,
    UnsupportedBackend { method: AuthMethod },
    Rejected,
    Internal,
}

/// The outcome of an authentication, as values.
pub open spec fn auth_result_view(r: Result<AuthIdentity, AuthError>) -> Result<
    AuthIdentityView,
    AuthError,
> {
    match r {
        Ok(id) => Ok(id@),
        Err(e) => Err(e),
    }
}

/// The text with which an authentication error is reported.
pub open spec fn auth_error_message(e: AuthError) -> Seq<char> {
    match e {
        AuthError::EmptyPayload => "auth payload is empty"@,
        AuthError::UnsupportedBackend { method } => "auth backend unsupported for method: "@
            + auth_method_debug_name(method),
        AuthError::Rejected => "authentication rejected"@,
        AuthError::Internal => "internal auth failure"@,
    }
}

impl AuthError {
    /// The text with which this error is reported.
    pub fn message(&self) -> (r: String)
        ensures
            r@ == auth_error_message(*self),
    {
        match self {
            AuthError::EmptyPayload => String::from_str("auth payload is empty"),
            AuthError::UnsupportedBackend { method } => {
                let mut out: Vec<char> = Vec::new();
                push_str(&mut out, "auth backend unsupported for method: ");
                push_str(&mut out, method.debug_name());
                string_from_chars(&out)
            },
            AuthError::Rejected => String::from_str("authentication rejected"),
            AuthError::Internal => String::from_str("internal auth failure"),
        }
    }
}

/// Something that decides whether a credential admits a client.
pub trait AuthBackend: Send + Sync {
    /// The decision this backend takes on an input.
    spec fn spec_authenticate(&self, input: AuthInputView) -> Result<AuthIdentityView, AuthError>;

    fn authenticate(&self, input: AuthInput) -> (r: Result<AuthIdentity, AuthError>)
        ensures
            auth_result_view(r) == self.spec_authenticate(input@),
    ;
}

/// Whether a failed authentication is answered with the decoy website.
#[derive(Debug, Clone, Copy, PartialEq, Eq, Structural)]
pub struct ProbeGatePolicy {
    pub facade_on_auth_failure: bool,
}

impl Default for ProbeGatePolicy {
    fn default() -> (r: Self)
        ensures
            r.facade_on_auth_failure,
    {
        ProbeGatePolicy { facade_on_auth_failure: true }
    }
}

/// What the server does with a connection after authentication.
#[derive(Debug, Clone, PartialEq, Eq)]
pub enum ProbeGateResult {
    AllowTunnel(AuthIdentity),
    ServeFacade,
    Reject,
}

/// Admits authenticated clients; a failed one sees the decoy website when the policy asks
/// for it, and is dropped otherwise.
pub fn evaluate_probe_gate(auth_result: Result<AuthIdentity, AuthError>, policy: ProbeGatePolicy) -> (r:
    ProbeGateResult)
    ensures
        auth_result matches Ok(id) ==> r == ProbeGateResult::AllowTunnel(id),
        auth_result is Err ==> r == (if policy.facade_on_auth_failure {
            ProbeGateResult::ServeFacade
        } else {
            ProbeGateResult::Reject
        }),
{
    match auth_result {
        Ok(identity) => ProbeGateResult::AllowTunnel(identity),
        Err(_) => {
            if policy.facade_on_auth_failure {
                ProbeGateResult::ServeFacade
            } else {
                ProbeGateResult::Reject
            }
        },
    }
}

} // verus!
