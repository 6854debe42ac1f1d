use vstd::prelude::*;
use vstd::string::*;
use crate::auth::{AuthBackend, AuthError, AuthIdentity, AuthIdentityView, AuthInput, AuthInputView};
use crate::auth::common_crypto::ct_eq_bytes;
use crate::util::AuthMethod;

verus! {

/// Admits clients that present one of a list of pre-shared keys.
#[derive(Debug, Clone)]
pub struct StaticKeyBackend {
    keys: Vec<Vec<u8>>,
}

impl StaticKeyBackend {
    pub closed spec fn spec_keys(&self) -> Seq<Seq<u8>> {
        self.keys@.map_values(|k: Vec<u8>| k@)
    }

    pub fn new(keys: Vec<Vec<u8>>) -> (r: Self)
        ensures
            r.spec_keys() == keys@.map_values(|k: Vec<u8>| k@),
    {
        StaticKeyBackend { keys }
    }
}

/// The decision of a static-key backend holding `keys`.
pub open spec fn static_key_decision(keys: Seq<Seq<u8>>, input: AuthInputView) -> Result<
    AuthIdentityView,
    AuthError,
> {
    if input.payload.len() == 0 {
        Err(AuthError::EmptyPayload)
    } else if input.method != AuthMethod::StaticKey {
        Err(AuthError::UnsupportedBackend { method: input.method })
    } else if keys.contains(input.payload) {
        Ok(AuthIdentityView { subject: "static-key"@, method: AuthMethod::StaticKey })
    } else {
        Err(AuthError::Rejected)
    }
}

impl AuthBackend for StaticKeyBackend {
    open spec fn spec_authenticate(&self, input: AuthInputView) -> Result<AuthIdentityView, AuthError> {
        static_key_decision(self.spec_keys(), input)
    }

    fn authenticate(&self, input: AuthInput) -> (r: Result<AuthIdentity, AuthError>) {
        if input.payload.len() == 0 {
            return Err(AuthError::EmptyPayload);
        }
        if input.method != AuthMethod::StaticKey {
            return Err(AuthError::UnsupportedBackend { method: input.method });
        }
        let ghost keys = self.spec_keys();
        let mut i: usize = 0;
        while i < self.keys.len()
            invariant
                i <= self.keys@.len(),
                keys == self.spec_keys(),
                input.payload@.len() > 0,
                input.method == AuthMethod::StaticKey,
                keys.len() == self.keys@.len(),
                forall|j: int| 0 <= j < i ==> keys[j] != input.payload@,
            decreases self.keys@.len() - i,
        {
            if ct_eq_bytes(self.keys[i].as_slice(), input.payload.as_slice()) {
                assert(keys[i as int] == input.payload@);
                assert(keys.contains(input.payload@));
                return Ok(
                    AuthIdentity { subject: String::from_str("static-key"), method: AuthMethod::StaticKey },
                );
            }
            i = i + 1;
        }
        assert(!keys.contains(input.payload@));
        Err(AuthError::Rejected)
    }
}

} // verus!
