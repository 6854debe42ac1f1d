use vstd::prelude::*;
use crate::RuntimeError;
use crate::runtime::backend::{FdInterest, ReadyEvent, RuntimeBackend};

verus! {

/// The Linux readiness backend.
#[derive(Debug)]
pub struct EpollBackend {
    initialized: bool,
}

impl EpollBackend {
    pub fn new() -> (r: Self)
        ensures
            !r.spec_initialized(),
    {
        EpollBackend { initialized: false }
    }
}

impl RuntimeBackend for EpollBackend {
    closed spec fn spec_initialized(&self) -> bool {
        self.initialized
    }

    open spec fn spec_name(&self) -> Seq<char> {
        "epoll"@
    }

    fn name(&self) -> (r: &'static str) {
        "epoll"
    }

    fn initialize(&mut self) -> (r: Result<(), RuntimeError>)
        ensures
            r is Ok,
    {
        self.initialized = true;
        Ok(())
    }

    fn register(&mut self, token: u64, fd: i32, interest: FdInterest) -> (r: Result<(), RuntimeError>)
        ensures
            r is Ok,
    {
        Ok(())
    }

    fn deregister(&mut self, token: u64) -> (r: Result<(), RuntimeError>)
        ensures
            r is Ok,
    {
        Ok(())
    }

    fn poll(&mut self, events: &mut Vec<ReadyEvent>) -> (r: Result<(), RuntimeError>)
        ensures
            r is Ok <==> old(self).spec_initialized(),
            final(events)@ == old(events)@,
    {
        if !self.initialized {
            return Err(RuntimeError::EventLoopStartFailed);
        }
        Ok(())
    }
}

} // verus!
