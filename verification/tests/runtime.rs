use apate::runtime::backend::epoll::EpollBackend;
use apate::runtime::backend::iocp::IocpBackend;
use apate::runtime::backend::kqueue::KqueueBackend;
use apate::runtime::backend::{platform_backend_kind, select_backend, BackendKind, FdInterest, RuntimeBackend};
use apate::runtime::executor::Executor;
use apate::runtime::reactor::{Reactor, ReactorEvent};
use apate::runtime::timer::TimerWheel;
use apate::runtime::waker::WakerRegistry;
use apate::runtime::Runtime;
use apate::RuntimeError;

#[test]
fn epoll_requires_initialization_before_poll() {
    let mut backend = EpollBackend::new();
    let mut events = Vec::new();
    assert!(backend.poll(&mut events).is_err());

    assert!(backend.initialize().is_ok());
    assert!(backend.poll(&mut events).is_ok());
    assert!(events.is_empty());
}

#[test]
fn kqueue_initialization_is_target_gated() {
    let mut backend = KqueueBackend::new(false);
    let mut events = Vec::new();
    assert!(backend.poll(&mut events).is_err());

    let init_result = backend.initialize();
    assert!(init_result.is_err());

    let mut supported = KqueueBackend::new(true);
    assert!(supported.initialize().is_ok());
    assert!(supported.poll(&mut events).is_ok());
    assert!(events.is_empty());
}

#[test]
fn executor_returns_tasks_in_insert_order() {
    let mut executor = Executor::new();
    let first = executor.spawn_task();
    let second = executor.spawn_task();

    assert_eq!(Some(first), executor.poll_ready_task());
    assert_eq!(Some(second), executor.poll_ready_task());
    assert_eq!(None, executor.poll_ready_task());
}

#[test]
fn runtime_start_stop_cycle() {
    let mut runtime = Runtime::new(BackendKind::Epoll);
    assert!(!runtime.is_running());

    assert!(runtime.start().is_ok());
    assert!(runtime.is_running());

    runtime.stop();
    assert!(!runtime.is_running());
}

#[test]
fn run_once_requires_running_state() {
    let mut runtime = Runtime::new(BackendKind::Epoll);
    assert!(runtime.run_once(0).is_err());
}

#[test]
fn run_once_drains_timers_into_executor() {
    let mut runtime = Runtime::new(BackendKind::Epoll);
    runtime.start().expect("start");

    let timer_id = runtime.timer_wheel.schedule(10);
    runtime.run_once(10).expect("tick");

    assert_eq!(Some(timer_id), runtime.executor.poll_ready_task());
}

#[test]
fn run_once_drains_reactor_events_into_executor() {
    let mut runtime = Runtime::new(BackendKind::Epoll);
    runtime.start().expect("start");

    runtime.reactor.push_event(ReactorEvent::Readable { token: 99 });
    runtime.run_once(0).expect("tick");

    assert_eq!(Some(99), runtime.executor.poll_ready_task());
}

#[test]
fn backend_name_returns_platform_backend() {
    let runtime = Runtime::new(BackendKind::Epoll);
    let name = runtime.backend_name();
    assert!(!name.is_empty());
}

#[test]
fn reactor_behaves_fifo() {
    let mut reactor = Reactor::new();
    reactor.push_event(ReactorEvent::Readable { token: 1 });
    reactor.push_event(ReactorEvent::Writable { token: 2 });

    assert_eq!(2, reactor.pending_count());
    assert_eq!(Some(ReactorEvent::Readable { token: 1 }), reactor.pop_event());
    assert_eq!(Some(ReactorEvent::Writable { token: 2 }), reactor.pop_event());
    assert_eq!(None, reactor.pop_event());
}

#[test]
fn timer_wheel_drains_expired_in_deadline_order() {
    let mut timers = TimerWheel::new();
    let first = timers.schedule(10);
    let second = timers.schedule(20);

    let early = timers.drain_expired(9);
    assert!(early.is_empty());

    let at_ten = timers.drain_expired(10);
    assert_eq!(1, at_ten.len());
    assert_eq!(first, at_ten[0].timer_id);

    let at_twenty = timers.drain_expired(20);
    assert_eq!(1, at_twenty.len());
    assert_eq!(second, at_twenty[0].timer_id);
}

#[test]
fn registry_wake_and_drain() {
    let mut registry = WakerRegistry::new();
    registry.wake(11);
    registry.wake(7);
    registry.wake(11);

    assert_eq!(2, registry.ready_count());
    assert_eq!(vec![7, 11], registry.drain_ready());
    assert_eq!(0, registry.ready_count());
}

#[test]
fn timers_with_one_deadline_fire_in_the_order_set() {
    let mut timers = TimerWheel::new();
    let late = timers.schedule(30);
    let a = timers.schedule(5);
    let b = timers.schedule(5);
    let expired = timers.drain_expired(29);
    let ids: Vec<u64> = expired.iter().map(|e| e.timer_id).collect();
    assert_eq!(vec![a, b], ids);
    assert_eq!(vec![5, 5], expired.iter().map(|e| e.deadline_tick).collect::<Vec<u64>>());
    assert_eq!(late, timers.drain_expired(u64::MAX)[0].timer_id);
    assert!(timers.drain_expired(u64::MAX).is_empty());
}

#[test]
fn run_once_wakes_each_token_once_in_increasing_order() {
    let mut runtime = Runtime::new(BackendKind::Kqueue);
    assert_eq!("kqueue", runtime.backend_name());
    runtime.start().expect("start");
    runtime.reactor.push_event(ReactorEvent::Writable { token: 50 });
    runtime.reactor.push_event(ReactorEvent::Readable { token: 3 });
    runtime.reactor.push_event(ReactorEvent::Readable { token: 50 });
    let timer = runtime.timer_wheel.schedule(0);
    runtime.run_once(0).expect("tick");
    let mut order = Vec::new();
    while let Some(t) = runtime.executor.poll_ready_task() {
        order.push(t);
    }
    let mut expected = vec![3, 50, timer];
    expected.sort();
    assert_eq!(expected, order);
    assert_eq!(0, runtime.reactor.pending_count());
    assert_eq!(0, runtime.waker.ready_count());
}

#[test]
fn runtime_fails_to_start_without_backend_and_stays_stopped() {
    let mut backend = KqueueBackend::new(false);
    assert_eq!(
        Err(RuntimeError::BackendUnavailable { backend: String::from("kqueue") }),
        backend.initialize()
    );
    assert_eq!("runtime backend unavailable: kqueue", RuntimeError::BackendUnavailable { backend: String::from("kqueue") }.message());
    let mut runtime = Runtime::new(BackendKind::Epoll);
    assert!(runtime.register_fd(1, 3, FdInterest { readable: true, writable: false }).is_ok());
    assert!(runtime.deregister_fd(1).is_ok());
    assert_eq!(Err(RuntimeError::EventLoopStartFailed), runtime.tick());
}

#[test]
fn executor_ids_count_up_and_backends_are_chosen_by_os() {
    let mut executor = Executor::new();
    assert_eq!(1, executor.spawn_task());
    assert_eq!(2, executor.spawn_task());
    executor.schedule_ready(40);
    assert_eq!(3, executor.pending_tasks());
    assert_eq!(BackendKind::Kqueue, platform_backend_kind("macos"));
    assert_eq!(BackendKind::Iocp, platform_backend_kind("windows"));
    assert_eq!(BackendKind::Epoll, platform_backend_kind("linux"));
    assert_eq!("epoll", select_backend(BackendKind::IoUring).name());
    assert_eq!("kqueue", select_backend(BackendKind::Kqueue).name());
}

#[test]
fn iocp_platform_gated() {
    let mut backend = IocpBackend::new();
    let result = backend.initialize();
    assert!(result.is_err());
    assert_eq!(
        "runtime backend unavailable: iocp",
        result.unwrap_err().message()
    );
    let mut events = Vec::new();
    assert!(backend.poll(&mut events).is_err());
    assert!(events.is_empty());
    assert_eq!("iocp", backend.name());
}

#[test]
fn runtime_on_each_built_backend_starts_and_registers() {
    for kind in [BackendKind::Epoll, BackendKind::Kqueue, BackendKind::IoUring] {
        let mut runtime = Runtime::new(kind);
        assert!(runtime.register_fd(7, 3, FdInterest { readable: true, writable: true }).is_ok());
        assert!(runtime.start().is_ok());
        assert!(runtime.deregister_fd(7).is_ok());
        assert!(runtime.tick().is_ok());
    }
}

#[test]
fn runtime_on_completion_ports_does_not_start_here() {
    let mut runtime = Runtime::new(BackendKind::Iocp);
    assert_eq!("iocp", runtime.backend_name());
    assert_eq!(
        Err(RuntimeError::BackendUnavailable { backend: String::from("iocp") }),
        runtime.start()
    );
    assert!(!runtime.is_running());
    assert_eq!(Err(RuntimeError::EventLoopStartFailed), runtime.run_once(0));
}

#[test]
fn each_timer_is_handed_out_by_one_drain_only() {
    let mut timers = TimerWheel::new();
    let a = timers.schedule(10);
    let b = timers.schedule(20);
    let c = timers.schedule(10);
    assert_eq!((1, 2, 3), (a, b, c));
    assert!(timers.drain_expired(5).is_empty());
    let due: Vec<u64> = timers.drain_expired(10).iter().map(|t| t.timer_id).collect();
    assert_eq!(vec![a, c], due);
    assert!(timers.drain_expired(10).is_empty());
    let due: Vec<u64> = timers.drain_expired(30).iter().map(|t| t.timer_id).collect();
    assert_eq!(vec![b], due);
    assert!(timers.drain_expired(u64::MAX).is_empty());
}
