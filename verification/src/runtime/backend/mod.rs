pub mod epoll;
pub mod iocp;
pub mod kqueue;

use vstd::prelude::*;
use crate::RuntimeError;

verus! {

/// A descriptor that became ready, and for what.
#[derive(Debug, Clone, Copy, PartialEq, Eq, Structural)]
pub struct ReadyEvent {
    pub token: u64,
    pub readable: bool,
    pub writable: bool,
}

/// What a registered descriptor is watched for.
#[derive(Debug, Clone, Copy, PartialEq, Eq, Structural)]
pub struct FdInterest {
    pub readable: bool,
    pub writable: bool,
}

/// The platform's readiness notification mechanism.
pub trait RuntimeBackend {
    /// Whether the backend has been set up and can be polled.
    spec fn spec_initialized(&self) -> bool;

    /// The backend's name.
    spec fn spec_name(&self) -> Seq<char>;

    fn name(&self) -> (r: &'static str)
        ensures
            r@ == self.spec_name(),
    ;

    /// Sets the backend up; on success it can be polled.
    fn initialize(&mut self) -> (r: Result<(), RuntimeError>)
        ensures
            final(self).spec_name() == old(self).spec_name(),
            r is Ok ==> final(self).spec_initialized(),
            r is Err ==> final(self).spec_initialized() == old(self).spec_initialized(),
    ;

    fn register(&mut self, token: u64, fd: i32, interest: FdInterest) -> (r: Result<(), RuntimeError>)
        ensures
            final(self).spec_name() == old(self).spec_name(),
            final(self).spec_initialized() == old(self).spec_initialized(),
    ;

    fn deregister(&mut self, token: u64) -> (r: Result<(), RuntimeError>)
        ensures
            final(self).spec_name() == old(self).spec_name(),
            final(self).spec_initialized() == old(self).spec_initialized(),
    ;

    /// Appends the events that are ready; fails, adding none, before `initialize`.
    fn poll(&mut self, events: &mut Vec<ReadyEvent>) -> (r: Result<(), RuntimeError>)
        ensures
            final(self).spec_name() == old(self).spec_name(),
            final(self).spec_initialized() == old(self).spec_initialized(),
            !old(self).spec_initialized() ==> r == Err::<(), RuntimeError>(
                RuntimeError::EventLoopStartFailed,
            ),
            r is Err ==> final(events)@ == old(events)@,
            final(events)@.subrange(0, old(events)@.len() as int) == old(events)@,
    ;
}

/// The readiness mechanisms there are.
#[derive(Debug, Clone, Copy, PartialEq, Eq, Structural)]
pub enum BackendKind {
    Epoll,
    IoUring,
    Kqueue,
    Iocp,
}

/// The backend kind the runtime uses on an operating system, named as Rust names it:
/// kqueue on macOS, IOCP on Windows, epoll elsewhere.
pub fn platform_backend_kind(os: &str) -> (r: BackendKind)
    ensures
        r == if os@ == "macos"@ {
            BackendKind::Kqueue
        } else if os@ == "windows"@ {
            BackendKind::Iocp
        } else {
            BackendKind::Epoll
        },
{
    if crate::text::str_eq_chars(os, &crate::text::chars_of("macos")) {
        BackendKind::Kqueue
    } else if crate::text::str_eq_chars(os, &crate::text::chars_of("windows")) {
        BackendKind::Iocp
    } else {
        BackendKind::Epoll
    }
}

/// The backends built here.
#[derive(Debug)]
pub enum PlatformBackend {
    Epoll(epoll::EpollBackend),
    Kqueue(kqueue::KqueueBackend),
    Iocp(iocp::IocpBackend),
}

impl PlatformBackend {
    /// Whether the backend can be set up: epoll always, kqueue where the platform has it,
    /// completion ports never (this library is not built for Windows).
    pub open spec fn spec_supported(&self) -> bool {
        match self {
            PlatformBackend::Epoll(_) => true,
            PlatformBackend::Kqueue(b) => b.spec_platform_supported(),
            PlatformBackend::Iocp(_) => false,
        }
    }
}

/// The backend for a kind, not yet set up: kqueue for `Kqueue`, completion ports for
/// `Iocp`, epoll for the others.
pub fn platform_backend(kind: BackendKind) -> (r: PlatformBackend)
    ensures
        !r.spec_initialized(),
        r.spec_supported() <==> kind != BackendKind::Iocp,
        r.spec_name() == if kind == BackendKind::Kqueue {
            "kqueue"@
        } else if kind == BackendKind::Iocp {
            "iocp"@
        } else {
            "epoll"@
        },
{
    if kind == BackendKind::Kqueue {
        PlatformBackend::Kqueue(kqueue::KqueueBackend::new(true))
    } else if kind == BackendKind::Iocp {
        PlatformBackend::Iocp(iocp::IocpBackend::new())
    } else {
        PlatformBackend::Epoll(epoll::EpollBackend::new())
    }
}

/// The backend for a kind, boxed: what `platform_backend` returns. The boxed result carries
/// no contract; `platform_backend` states what the backend is.
pub fn select_backend(kind: BackendKind) -> Box<dyn RuntimeBackend> {
    let b: Box<dyn RuntimeBackend> = Box::new(platform_backend(kind));
    b
}

impl RuntimeBackend for PlatformBackend {
    open spec fn spec_initialized(&self) -> bool {
        match self {
            PlatformBackend::Epoll(b) => b.spec_initialized(),
            PlatformBackend::Kqueue(b) => b.spec_initialized(),
            PlatformBackend::Iocp(b) => b.spec_initialized(),
        }
    }

    open spec fn spec_name(&self) -> Seq<char> {
        match self {
            PlatformBackend::Epoll(b) => b.spec_name(),
            PlatformBackend::Kqueue(b) => b.spec_name(),
            PlatformBackend::Iocp(b) => b.spec_name(),
        }
    }

    fn name(&self) -> (r: &'static str) {
        match self {
            PlatformBackend::Epoll(b) => b.name(),
            PlatformBackend::Kqueue(b) => b.name(),
            PlatformBackend::Iocp(b) => b.name(),
        }
    }

    fn initialize(&mut self) -> (r: Result<(), RuntimeError>)
        ensures
            r is Ok <==> old(self).spec_supported(),
            r matches Err(e) ==> e matches RuntimeError::BackendUnavailable { backend } && backend@
                == old(self).spec_name(),
            final(self).spec_supported() == old(self).spec_supported(),
    {
        match self {
            PlatformBackend::Epoll(b) => b.initialize(),
            PlatformBackend::Kqueue(b) => b.initialize(),
            PlatformBackend::Iocp(b) => b.initialize(),
        }
    }

    fn register(&mut self, token: u64, fd: i32, interest: FdInterest) -> (r: Result<(), RuntimeError>)
        ensures
            r is Ok,
            final(self).spec_supported() == old(self).spec_supported(),
    {
        match self {
            PlatformBackend::Epoll(b) => b.register(token, fd, interest),
            PlatformBackend::Kqueue(b) => b.register(token, fd, interest),
            PlatformBackend::Iocp(b) => b.register(token, fd, interest),
        }
    }

    fn deregister(&mut self, token: u64) -> (r: Result<(), RuntimeError>)
        ensures
            r is Ok,
            final(self).spec_supported() == old(self).spec_supported(),
    {
        match self {
            PlatformBackend::Epoll(b) => b.deregister(token),
            PlatformBackend::Kqueue(b) => b.deregister(token),
            PlatformBackend::Iocp(b) => b.deregister(token),
        }
    }

    fn poll(&mut self, events: &mut Vec<ReadyEvent>) -> (r: Result<(), RuntimeError>)
        ensures
            final(self).spec_supported() == old(self).spec_supported(),
            r is Ok <==> old(self).spec_initialized(),
            final(events)@ == old(events)@,
    {
        match self {
            PlatformBackend::Epoll(b) => b.poll(events),
            PlatformBackend::Kqueue(b) => b.poll(events),
            PlatformBackend::Iocp(b) => b.poll(events),
        }
    }
}

} // verus!
