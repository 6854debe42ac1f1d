pub mod client_hello;
pub mod decoy;
pub mod entropy;
pub mod facade;
pub mod padding;
pub mod quic_camouflage;
pub mod server_hello;
pub mod session_rotation;
pub mod timing;
pub mod tls_camouflage;
pub mod traffic_shaping;

use vstd::prelude::*;
use crate::config::profiles::{
    load_profile, load_profile_spec, opt_str_view, ProfileError, ProfileErrorView, StealthProfile,
    StealthProfileView,
};

verus! {

/// The stealth settings a running endpoint works with.
#[derive(Debug, Clone)]
pub struct StealthRuntime {
    profile: StealthProfile,
}

impl StealthRuntime {
    /// The profile the runtime was loaded with.
    pub closed spec fn spec_profile(&self) -> StealthProfileView {
        self.profile@
    }

    /// Loads the named profile, or the one the override source describes, and validates it.
    pub fn from_profile_name(profile_name: &str, profile_override_source: Option<&str>) -> (r: Result<
        Self,
        ProfileError,
    >)
        ensures
            r matches Ok(rt) ==> load_profile_spec(profile_name@, opt_str_view(profile_override_source))
                == Ok::<StealthProfileView, ProfileErrorView>(rt.spec_profile()),
            r matches Err(e) ==> load_profile_spec(
                profile_name@,
                opt_str_view(profile_override_source),
            ) == Err::<StealthProfileView, ProfileErrorView>(e@),
    {
        let profile = load_profile(profile_name, profile_override_source)?;
        Ok(StealthRuntime { profile })
    }

    pub fn profile(&self) -> (r: &StealthProfile)
        ensures
            r@ == self.spec_profile(),
    {
        &self.profile
    }
}

} // verus!
