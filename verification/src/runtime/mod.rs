pub mod backend;
pub mod executor;
pub mod reactor;
pub mod timer;
pub mod waker;

use vstd::prelude::*;
use crate::RuntimeError;
use crate::runtime::backend::{
    platform_backend, BackendKind, FdInterest, PlatformBackend, ReadyEvent, RuntimeBackend,
};
use crate::runtime::executor::Executor;
use crate::runtime::reactor::{event_token, Reactor, ReactorEvent};
use crate::runtime::timer::{deadlines_ordered, first_later, TimerEntry, TimerWheel};
use crate::runtime::waker::{strictly_increasing, WakerRegistry};

verus! {

/// The reactor events that ready descriptors give: for each, a readable event where it is
/// readable, then a writable one where it is writable.
pub open spec fn ready_events(polled: Seq<ReadyEvent>) -> Seq<ReactorEvent>
    decreases polled.len(),
{
    if polled.len() == 0 {
        Seq::empty()
    } else {
        let ev = polled.last();
        let r = if ev.readable {
            seq![ReactorEvent::Readable { token: ev.token }]
        } else {
            Seq::empty()
        };
        let w = if ev.writable {
            seq![ReactorEvent::Writable { token: ev.token }]
        } else {
            Seq::empty()
        };
        ready_events(polled.drop_last()) + r + w
    }
}

/// The reactor events of fired timers, one per timer in order.
pub open spec fn timer_events(expired: Seq<TimerEntry>) -> Seq<ReactorEvent> {
    expired.map_values(|t: TimerEntry| ReactorEvent::TimerFired { timer_id: t.timer_id })
}

/// The tokens that a sequence of events wakes.
pub open spec fn woken_tokens(events: Seq<ReactorEvent>) -> Set<u64> {
    events.map_values(|e: ReactorEvent| event_token(e)).to_set()
}

/// One turn of the event loop, taken while running, with the events the backend reported:
/// the ready descriptors' events and those of the timers due at `now` join the pending
/// events; every one of them wakes its task; and the woken tasks, in increasing order of
/// token, join the executor's queue.
pub open spec fn loop_turn(old_rt: Runtime, new_rt: Runtime, polled: Seq<ReadyEvent>, now: u64) -> bool {
    let timers = old_rt.spec_timers().spec_pending();
    let k = first_later(timers, now, 0);
    let events = old_rt.spec_reactor().spec_events() + ready_events(polled) + timer_events(
        timers.take(k),
    );
    let woken = old_rt.spec_waker().spec_ready().union(woken_tokens(events));
    &&& new_rt.spec_reactor().spec_events() == Seq::<ReactorEvent>::empty()
    &&& new_rt.spec_timers().spec_pending() == timers.skip(k)
    &&& new_rt.spec_timers().spec_next_id() == old_rt.spec_timers().spec_next_id()
    &&& new_rt.spec_waker().spec_ready() == Set::<u64>::empty()
    &&& new_rt.spec_executor().spec_next_id() == old_rt.spec_executor().spec_next_id()
    &&& exists|d: Seq<u64>|
        strictly_increasing(d) && d.to_set() == woken && #[trigger] new_rt.spec_executor().spec_queue()
            == old_rt.spec_executor().spec_queue() + d
}

/// The event loop: readiness from the platform backend, timers, wakeups and ready tasks.
pub struct Runtime {
    pub reactor: Reactor,
    pub executor: Executor,
    pub timer_wheel: TimerWheel,
    pub waker: WakerRegistry,
    core: LoopCore,
}

/// The loop's own state: its backend and whether it runs. It only runs with its backend set
/// up.
struct LoopCore {
    backend: PlatformBackend,
    running: bool,
}

impl LoopCore {
    #[verifier::type_invariant]
    spec fn ready_when_running(self) -> bool {
        self.running ==> self.backend.spec_initialized()
    }
}

impl Runtime {
    pub closed spec fn spec_reactor(&self) -> Reactor {
        self.reactor
    }

    pub closed spec fn spec_executor(&self) -> Executor {
        self.executor
    }

    pub closed spec fn spec_timers(&self) -> TimerWheel {
        self.timer_wheel
    }

    pub closed spec fn spec_waker(&self) -> WakerRegistry {
        self.waker
    }

    pub closed spec fn spec_running(&self) -> bool {
        self.core.running
    }

    /// Whether the backend has been set up.
    pub closed spec fn spec_backend_ready(&self) -> bool {
        self.core.backend.spec_initialized()
    }

    pub closed spec fn spec_backend_name(&self) -> Seq<char> {
        self.core.backend.spec_name()
    }

    /// Takes the loop's state out, leaving a stopped epoll one in its place.
    fn take_core(&mut self) -> (c: LoopCore)
        ensures
            c == old(self).core,
            final(self).reactor == old(self).reactor,
            final(self).executor == old(self).executor,
            final(self).timer_wheel == old(self).timer_wheel,
            final(self).waker == old(self).waker,
    {
        let mut c = LoopCore { backend: platform_backend(BackendKind::Epoll), running: false };
        std::mem::swap(&mut self.core, &mut c);
        c
    }

    /// Whether the backend can be set up on this platform.
    pub closed spec fn spec_backend_supported(&self) -> bool {
        self.core.backend.spec_supported()
    }

    /// Whether the parts other than the backend and the running flag are as in `other`.
    pub open spec fn same_parts(&self, other: &Runtime) -> bool {
        &&& self.spec_reactor().spec_events() == other.spec_reactor().spec_events()
        &&& self.spec_executor().spec_queue() == other.spec_executor().spec_queue()
        &&& self.spec_executor().spec_next_id() == other.spec_executor().spec_next_id()
        &&& self.spec_timers().spec_pending() == other.spec_timers().spec_pending()
        &&& self.spec_timers().spec_next_id() == other.spec_timers().spec_next_id()
        &&& self.spec_waker().spec_ready() == other.spec_waker().spec_ready()
    }

    /// A stopped runtime on the backend of the given kind: kqueue for `Kqueue`, epoll for
    /// every other kind.
    pub fn new(kind: BackendKind) -> (r: Self)
        ensures
            !r.spec_running(),
            !r.spec_backend_ready(),
            r.spec_running() ==> r.spec_backend_ready(),
            r.spec_backend_supported() <==> kind != BackendKind::Iocp,
            r.spec_backend_name() == if kind == BackendKind::Kqueue {
                "kqueue"@
            } else if kind == BackendKind::Iocp {
                "iocp"@
            } else {
                "epoll"@
            },
            r.spec_reactor().spec_events() == Seq::<ReactorEvent>::empty(),
            r.spec_executor().spec_queue() == Seq::<u64>::empty(),
            r.spec_executor().spec_next_id() == 1,
            r.spec_timers().spec_pending() == Seq::<TimerEntry>::empty(),
            r.spec_timers().spec_next_id() == 1,
            r.spec_waker().spec_ready() == Set::<u64>::empty(),
    {
        Runtime {
            reactor: Reactor::new(),
            executor: Executor::new(),
            timer_wheel: TimerWheel::new(),
            waker: WakerRegistry::new(),
            core: LoopCore { backend: platform_backend(kind), running: false },
        }
    }

    /// Sets the backend up and starts; starting a running runtime does nothing.
    pub fn start(&mut self) -> (r: Result<(), RuntimeError>)
        ensures
            final(self).spec_running() ==> final(self).spec_backend_ready(),
            final(self).same_parts(old(self)),
            final(self).spec_backend_name() == old(self).spec_backend_name(),
            old(self).spec_running() ==> r is Ok && final(self).spec_running()
                && final(self).spec_backend_ready() == old(self).spec_backend_ready(),
            r is Ok ==> final(self).spec_running(),
            r is Err ==> !final(self).spec_running(),
            !old(self).spec_running() && r is Ok ==> final(self).spec_backend_ready(),
            !old(self).spec_running() ==> (r is Ok <==> old(self).spec_backend_supported()),
            r matches Err(e) ==> e matches RuntimeError::BackendUnavailable { backend } && backend@
                == old(self).spec_backend_name(),
            final(self).spec_backend_supported() == old(self).spec_backend_supported(),
    {
        proof {
            use_type_invariant(&self.core);
        }
        if self.core.running {
            return Ok(());
        }
        let c = self.take_core();
        let LoopCore { mut backend, running } = c;
        let r = backend.initialize();
        let ok = r.is_ok();
        self.core = LoopCore { backend, running: ok };
        r
    }

    pub fn stop(&mut self)
        ensures
            final(self).spec_running() ==> final(self).spec_backend_ready(),
            final(self).spec_backend_supported() == old(self).spec_backend_supported(),
            final(self).same_parts(old(self)),
            !final(self).spec_running(),
            final(self).spec_backend_ready() == old(self).spec_backend_ready(),
            final(self).spec_backend_name() == old(self).spec_backend_name(),
    {
        self.core.running = false;
    }

    pub fn is_running(&self) -> (r: bool)
        ensures
            r == self.spec_running(),
    {
        self.core.running
    }

    pub fn backend_name(&self) -> (r: &'static str)
        ensures
            r@ == self.spec_backend_name(),
    {
        self.core.backend.name()
    }

    /// Watches a descriptor through the backend.
    pub fn register_fd(&mut self, token: u64, fd: i32, interest: FdInterest) -> (r: Result<
        (),
        RuntimeError,
    >)
        ensures
            final(self).spec_running() ==> final(self).spec_backend_ready(),
            r is Ok,
            final(self).spec_backend_supported() == old(self).spec_backend_supported(),
            final(self).same_parts(old(self)),
            final(self).spec_running() == old(self).spec_running(),
            final(self).spec_backend_ready() == old(self).spec_backend_ready(),
            final(self).spec_backend_name() == old(self).spec_backend_name(),
    {
        let c = self.take_core();
        proof {
            use_type_invariant(&c);
        }
        let LoopCore { mut backend, running } = c;
        let r = backend.register(token, fd, interest);
        self.core = LoopCore { backend, running };
        r
    }

    /// Stops watching the descriptor of the token.
    pub fn deregister_fd(&mut self, token: u64) -> (r: Result<(), RuntimeError>)
        ensures
            final(self).spec_running() ==> final(self).spec_backend_ready(),
            r is Ok,
            final(self).spec_backend_supported() == old(self).spec_backend_supported(),
            final(self).same_parts(old(self)),
            final(self).spec_running() == old(self).spec_running(),
            final(self).spec_backend_ready() == old(self).spec_backend_ready(),
            final(self).spec_backend_name() == old(self).spec_backend_name(),
    {
        let c = self.take_core();
        proof {
            use_type_invariant(&c);
        }
        let LoopCore { mut backend, running } = c;
        let r = backend.deregister(token);
        self.core = LoopCore { backend, running };
        r
    }

    /// One turn of the loop at the wheel's current time; see `run_once`.
    pub fn tick(&mut self) -> (r: Result<(), RuntimeError>)
        ensures
            final(self).spec_running() ==> final(self).spec_backend_ready(),
            final(self).spec_backend_supported() == old(self).spec_backend_supported(),
            final(self).spec_running() == old(self).spec_running(),
            final(self).spec_backend_ready() == old(self).spec_backend_ready(),
            final(self).spec_backend_name() == old(self).spec_backend_name(),
            deadlines_ordered(final(self).spec_timers().spec_pending()),
            !old(self).spec_running() ==> r == Err::<(), RuntimeError>(
                RuntimeError::EventLoopStartFailed,
            ) && final(self).same_parts(old(self)),
            old(self).spec_running() ==> r is Ok,
            r is Err ==> final(self).same_parts(old(self)),
            r is Ok ==> exists|now: u64|
                #[trigger] loop_turn(*old(self), *final(self), Seq::<ReadyEvent>::empty(), now),
    {
        let now = self.timer_wheel.now_ms();
        self.run_once(now)
    }

    /// One turn of the loop at tick `now_tick`: it fails while the runtime is stopped or its
    /// backend is not set up, and otherwise takes the turn (the backends built here report no
    /// ready descriptors).
    pub fn run_once(&mut self, now_tick: u64) -> (r: Result<(), RuntimeError>)
        ensures
            final(self).spec_running() ==> final(self).spec_backend_ready(),
            final(self).spec_backend_supported() == old(self).spec_backend_supported(),
            final(self).spec_running() == old(self).spec_running(),
            final(self).spec_backend_ready() == old(self).spec_backend_ready(),
            final(self).spec_backend_name() == old(self).spec_backend_name(),
            deadlines_ordered(final(self).spec_timers().spec_pending()),
            !old(self).spec_running() ==> r == Err::<(), RuntimeError>(
                RuntimeError::EventLoopStartFailed,
            ) && final(self).same_parts(old(self)),
            old(self).spec_running() ==> r is Ok,
            r is Err ==> final(self).same_parts(old(self)),
            r is Ok ==> loop_turn(*old(self), *final(self), Seq::<ReadyEvent>::empty(), now_tick),
    {
        proof {
            use_type_invariant(&self.timer_wheel);
            use_type_invariant(&self.core);
        }
        if !self.core.running {
            return Err(RuntimeError::EventLoopStartFailed);
        }
        let ghost old_events = self.reactor.spec_events();
        let ghost timers = self.timer_wheel.spec_pending();
        let ghost old_ready = self.waker.spec_ready();
        let ghost old_queue = self.executor.spec_queue();
        let ghost timer_next = self.timer_wheel.spec_next_id();
        let ghost exec_next = self.executor.spec_next_id();
        let ghost b_name = self.core.backend.spec_name();
        let ghost b_sup = self.core.backend.spec_supported();
        let mut events: Vec<ReadyEvent> = Vec::new();
        let c = self.take_core();
        proof {
            use_type_invariant(&c);
        }
        let LoopCore { mut backend, running } = c;
        let polled_ok = backend.poll(&mut events);
        self.core = LoopCore { backend, running };
        polled_ok?;
        let ghost polled = events@;
        let ghost b_ready = self.core.backend.spec_initialized();
        let mut i: usize = 0;
        while i < events.len()
            invariant
                i <= events@.len(),
                events@ == polled,
                self.reactor.spec_events() == old_events + ready_events(polled.take(i as int)),
                self.timer_wheel.spec_pending() == timers,
                self.timer_wheel.spec_next_id() == timer_next,
                deadlines_ordered(timers),
                self.waker.spec_ready() == old_ready,
                self.executor.spec_queue() == old_queue,
                self.executor.spec_next_id() == exec_next,
                self.core.running,
                self.core.backend.spec_initialized() == b_ready,
                self.core.backend.spec_name() == b_name,
            self.core.backend.spec_supported() == b_sup,
                self.core.backend.spec_supported() == b_sup,
            decreases events@.len() - i,
        {
            let ev = events[i];
            proof {
                assert(polled.take(i + 1).drop_last() =~= polled.take(i as int));
            }
            if ev.readable {
                self.reactor.push_event(ReactorEvent::Readable { token: ev.token });
            }
            if ev.writable {
                self.reactor.push_event(ReactorEvent::Writable { token: ev.token });
            }
            proof {
                let r = if ev.readable {
                    seq![ReactorEvent::Readable { token: ev.token }]
                } else {
                    Seq::empty()
                };
                let w = if ev.writable {
                    seq![ReactorEvent::Writable { token: ev.token }]
                } else {
                    Seq::empty()
                };
                assert(ready_events(polled.take(i + 1)) == ready_events(polled.take(i as int)) + r
                    + w);
                assert(self.reactor.spec_events() =~= old_events + ready_events(polled.take(i + 1)));
            }
            i = i + 1;
        }
        proof {
            assert(polled.take(polled.len() as int) =~= polled);
        }
        let expired = self.timer_wheel.drain_expired(now_tick);
        let ghost with_ready = self.reactor.spec_events();
        let mut j: usize = 0;
        while j < expired.len()
            invariant
                j <= expired@.len(),
                self.reactor.spec_events() == with_ready + timer_events(expired@.take(j as int)),
                expired@ == timers.take(first_later(timers, now_tick, 0)),
                with_ready == old_events + ready_events(polled),
                self.waker.spec_ready() == old_ready,
                self.timer_wheel.spec_pending() == timers.skip(first_later(timers, now_tick, 0)),
                self.timer_wheel.spec_next_id() == timer_next,
                deadlines_ordered(self.timer_wheel.spec_pending()),
                self.executor.spec_queue() == old_queue,
                self.executor.spec_next_id() == exec_next,
                self.core.running,
                self.core.backend.spec_initialized() == b_ready,
                self.core.backend.spec_name() == b_name,
            self.core.backend.spec_supported() == b_sup,
                self.core.backend.spec_supported() == b_sup,
            decreases expired@.len() - j,
        {
            self.reactor.push_event(ReactorEvent::TimerFired { timer_id: expired[j].timer_id });
            proof {
                assert(timer_events(expired@.take(j + 1)) =~= timer_events(expired@.take(j as int)).push(
                    ReactorEvent::TimerFired { timer_id: expired@[j as int].timer_id },
                ));
                assert(self.reactor.spec_events() =~= with_ready + timer_events(expired@.take(j + 1)));
            }
            j = j + 1;
        }
        proof {
            assert(expired@.take(expired@.len() as int) =~= expired@);
        }
        let ghost all = self.reactor.spec_events();
        assert(all == old_events + ready_events(polled) + timer_events(
            timers.take(first_later(timers, now_tick, 0)),
        ));
        let ghost mut popped: int = 0;
        loop
            invariant
                0 <= popped <= all.len(),
                self.reactor.spec_events() == all.skip(popped),
                self.waker.spec_ready() == old_ready.union(woken_tokens(all.take(popped))),
                self.timer_wheel.spec_pending() == timers.skip(first_later(timers, now_tick, 0)),
                self.timer_wheel.spec_next_id() == timer_next,
                deadlines_ordered(self.timer_wheel.spec_pending()),
                self.executor.spec_queue() == old_queue,
                self.executor.spec_next_id() == exec_next,
                self.core.running,
                self.core.backend.spec_initialized() == b_ready,
                self.core.backend.spec_name() == b_name,
            self.core.backend.spec_supported() == b_sup,
                self.core.backend.spec_supported() == b_sup,
        ensures
            self.reactor.spec_events().len() == 0,
            self.reactor.spec_events() == all.skip(popped),
            self.waker.spec_ready() == old_ready.union(woken_tokens(all.take(popped))),
            0 <= popped <= all.len(),
            self.timer_wheel.spec_pending() == timers.skip(first_later(timers, now_tick, 0)),
            self.timer_wheel.spec_next_id() == timer_next,
            deadlines_ordered(self.timer_wheel.spec_pending()),
            self.executor.spec_queue() == old_queue,
            self.executor.spec_next_id() == exec_next,
            self.core.running,
            self.core.backend.spec_initialized() == b_ready,
            self.core.backend.spec_name() == b_name,
            self.core.backend.spec_supported() == b_sup,
            decreases all.len() - popped,
        {
            match self.reactor.pop_event() {
                None => {
                    break;
                },
                Some(event) => {
                    let token = match event {
                        ReactorEvent::Readable { token } => token,
                        ReactorEvent::Writable { token } => token,
                        ReactorEvent::TimerFired { timer_id } => timer_id,
                    };
                    self.waker.wake(token);
                    proof {
                        assert(all.skip(popped)[0] == all[popped]);
                        assert(all.skip(popped).drop_first() =~= all.skip(popped + 1));
                        assert(all.take(popped + 1) =~= all.take(popped).push(all[popped]));
                        let f = |e: ReactorEvent| event_token(e);
                        assert(all.take(popped + 1).map_values(f) =~= all.take(popped).map_values(
                            f,
                        ).push(token));
                        all.take(popped).map_values(f).lemma_push_to_set_commute(token);
                        assert(self.waker.spec_ready() =~= old_ready.union(
                            woken_tokens(all.take(popped + 1)),
                        ));
                        popped = popped + 1;
                    }
                },
            }
        }
        proof {
            assert(all.skip(popped).len() == 0);
            assert(all.take(popped) =~= all);
        }
        let ghost woken = self.waker.spec_ready();
        let drained = self.waker.drain_ready();
        let mut m: usize = 0;
        while m < drained.len()
            invariant
                m <= drained@.len(),
                self.executor.spec_queue() == old_queue + drained@.take(m as int),
                self.executor.spec_next_id() == exec_next,
                self.waker.spec_ready() == Set::<u64>::empty(),
                self.reactor.spec_events() == Seq::<ReactorEvent>::empty(),
                self.timer_wheel.spec_pending() == timers.skip(first_later(timers, now_tick, 0)),
                self.timer_wheel.spec_next_id() == timer_next,
                deadlines_ordered(self.timer_wheel.spec_pending()),
                self.core.running,
                self.core.backend.spec_initialized() == b_ready,
                self.core.backend.spec_name() == b_name,
            self.core.backend.spec_supported() == b_sup,
                self.core.backend.spec_supported() == b_sup,
            decreases drained@.len() - m,
        {
            self.executor.schedule_ready(drained[m]);
            proof {
                assert(drained@.take(m + 1) =~= drained@.take(m as int).push(drained@[m as int]));
                assert(self.executor.spec_queue() =~= old_queue + drained@.take(m + 1));
            }
            m = m + 1;
        }
        proof {
            assert(drained@.take(drained@.len() as int) =~= drained@);
            assert(strictly_increasing(drained@));
            assert(self.executor.spec_queue() == old_queue + drained@);
            assert(drained@.to_set() == old_ready.union(woken_tokens(all)));
            assert(loop_turn(*old(self), *self, polled, now_tick));
        }
        Ok(())
    }
}

} // verus!
