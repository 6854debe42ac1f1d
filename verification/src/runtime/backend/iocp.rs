use vstd::prelude::*;
use vstd::string::*;
use crate::RuntimeError;
use crate::runtime::backend::{FdInterest, ReadyEvent, RuntimeBackend};

verus! {

/// The Windows completion-port backend. Completion ports exist only on Windows, which this
/// library is not built for, so the backend never sets up: `initialize` reports it
/// unavailable, and polling fails until it is set up.
#[derive(Debug)]
pub struct IocpBackend {
    initialized: bool,
}

impl IocpBackend {
    pub fn new() -> (r: Self)
        ensures
            !r.spec_initialized(),
    {
        IocpBackend { initialized: false }
    }
}

impl RuntimeBackend for IocpBackend {
    closed spec fn spec_initialized(&self) -> bool {
        self.initialized
    }

    open spec fn spec_name(&self) -> Seq<char> {
        "iocp"@
    }

    fn name(&self) -> (r: &'static str) {
        "iocp"
    }

    fn initialize(&mut self) -> (r: Result<(), RuntimeError>)
        ensures
            r matches Err(e) && e matches RuntimeError::BackendUnavailable { backend } && backend@
                == "iocp"@,
            final(self).spec_initialized() == old(self).spec_initialized(),
    {
        Err(RuntimeError::BackendUnavailable { backend: String::from_str("iocp") })
    }

    fn register(&mut self, token: u64, fd: i32, interest: FdInterest) -> (r: Result<(), RuntimeError>)
        ensures
            r is Ok,
    {
        Ok(())
    }

    fn deregister(&mut self, token: u64) -> (r: Result<(), RuntimeError>)
        ensures
            r is Ok,
    {
        Ok(())
    }

    fn poll(&mut self, events: &mut Vec<ReadyEvent>) -> (r: Result<(), RuntimeError>)
        ensures
            r is Ok <==> old(self).spec_initialized(),
            final(events)@ == old(events)@,
    {
        if !self.initialized {
            return Err(RuntimeError::EventLoopStartFailed);
        }
        Ok(())
    }
}

} // verus!
