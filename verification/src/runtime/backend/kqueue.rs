use vstd::prelude::*;
use vstd::string::*;
use crate::RuntimeError;
use crate::runtime::backend::{FdInterest, ReadyEvent, RuntimeBackend};

verus! {

/// The BSD and macOS readiness backend; it sets up only where the platform has kqueue.
#[derive(Debug)]
pub struct KqueueBackend {
    initialized: bool,
    platform_supported: bool,
}

impl KqueueBackend {
    /// Whether the platform has kqueue.
    pub closed spec fn spec_platform_supported(&self) -> bool {
        self.platform_supported
    }

    /// A backend for a platform that has kqueue or not (macOS and FreeBSD have it).
    pub fn new(platform_supported: bool) -> (r: Self)
        ensures
            !r.spec_initialized(),
            r.spec_platform_supported() == platform_supported,
    {
        KqueueBackend { initialized: false, platform_supported }
    }
}

impl RuntimeBackend for KqueueBackend {
    closed spec fn spec_initialized(&self) -> bool {
        self.initialized
    }

    open spec fn spec_name(&self) -> Seq<char> {
        "kqueue"@
    }

    fn name(&self) -> (r: &'static str) {
        "kqueue"
    }

    fn initialize(&mut self) -> (r: Result<(), RuntimeError>)
        ensures
            r is Ok <==> old(self).spec_platform_supported(),
            final(self).spec_platform_supported() == old(self).spec_platform_supported(),
            r matches Err(e) ==> e matches RuntimeError::BackendUnavailable { backend } && backend@
                == "kqueue"@,
    {
        if !self.platform_supported {
            return Err(RuntimeError::BackendUnavailable { backend: String::from_str("kqueue") });
        }
        self.initialized = true;
        Ok(())
    }

    fn register(&mut self, token: u64, fd: i32, interest: FdInterest) -> (r: Result<(), RuntimeError>)
        ensures
            r is Ok,
            final(self).spec_platform_supported() == old(self).spec_platform_supported(),
    {
        Ok(())
    }

    fn deregister(&mut self, token: u64) -> (r: Result<(), RuntimeError>)
        ensures
            r is Ok,
            final(self).spec_platform_supported() == old(self).spec_platform_supported(),
    {
        Ok(())
    }

    fn poll(&mut self, events: &mut Vec<ReadyEvent>) -> (r: Result<(), RuntimeError>)
        ensures
            r is Ok <==> old(self).spec_initialized(),
            final(events)@ == old(events)@,
            final(self).spec_platform_supported() == old(self).spec_platform_supported(),
    {
        if !self.initialized {
            return Err(RuntimeError::EventLoopStartFailed);
        }
        Ok(())
    }
}

} // verus!
