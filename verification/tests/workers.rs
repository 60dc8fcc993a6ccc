use portmate_ssh::workers::{
    IdleWait, ReaderStartGate, ReaderStartState, SerialSessionShutdownGuard, SerialWorkerRegistry,
};

#[test]
fn registered_workers_are_counted_and_released() {
    let mut registry = SerialWorkerRegistry::new();
    let a = registry.register_for_session("com1").unwrap();
    let b = registry.register_for_session("com1").unwrap();
    let c = registry.register().unwrap();
    assert_eq!(registry.active_for_session("com1"), 2);
    assert_eq!(registry.active_for_session("com2"), 0);
    assert_eq!(registry.wait_for_idle(10, false), IdleWait::KeepWaiting);
    registry.release(a);
    assert_eq!(registry.active_for_session("com1"), 1);
    registry.release(b);
    assert_eq!(registry.active_for_session("com1"), 0);
    assert_eq!(registry.wait_for_idle(10, false), IdleWait::KeepWaiting);
    registry.release(c);
    assert_eq!(registry.wait_for_idle(10, false), IdleWait::Finished(0));
}

#[test]
fn closing_sessions_and_shutdown_refuse_work() {
    let mut registry = SerialWorkerRegistry::new();
    let guard = SerialSessionShutdownGuard::new(&mut registry, "com1".to_string());
    assert!(registry.is_session_shutting_down("com1"));
    assert_eq!(
        registry.register_for_session("com1").unwrap_err(),
        "serial session com1 is closing; serial work is not accepted"
    );
    assert!(registry.register_for_session("com2").is_ok());
    guard.end(&mut registry);
    assert!(!registry.is_session_shutting_down("com1"));
    assert!(registry.register_for_session("com1").is_ok());

    registry.begin_shutdown();
    assert!(registry.is_shutting_down());
    assert_eq!(
        registry.register().unwrap_err(),
        "PortMate is shutting down; serial work is not accepted"
    );
}

#[test]
fn idle_waits_stop_on_deadline_or_timeout() {
    let mut registry = SerialWorkerRegistry::new();
    let _worker = registry.register_for_session("com1").unwrap();
    assert_eq!(registry.wait_for_idle(0, false), IdleWait::Finished(1));
    assert_eq!(registry.wait_for_idle(5, true), IdleWait::Finished(1));
    assert_eq!(registry.wait_for_session_idle("com1", 5, false), IdleWait::KeepWaiting);
    assert_eq!(registry.wait_for_session_idle("com1", 0, false), IdleWait::Finished(1));
    assert_eq!(registry.wait_for_session_idle("com2", 5, false), IdleWait::Finished(0));
}

#[test]
fn session_close_marks_nest_once() {
    let mut registry = SerialWorkerRegistry::new();
    registry.begin_session_shutdown("com1");
    registry.begin_session_shutdown("com1");
    registry.end_session_shutdown("com1");
    assert!(!registry.is_session_shutting_down("com1"));
    registry.end_session_shutdown("com1");
    assert!(!registry.is_session_shutting_down("com1"));
}

#[test]
fn reader_gate_reports_start_or_cancel() {
    let mut gate = ReaderStartGate::new();
    assert_eq!(gate.wait(), None);
    gate.start();
    assert_eq!(gate.state, ReaderStartState::Started);
    assert_eq!(gate.wait(), Some(true));
    gate.cancel();
    assert_eq!(gate.wait(), Some(false));
}

#[test]
fn a_closing_session_stays_closed_until_its_workers_leave() {
    let mut registry = SerialWorkerRegistry::new();
    let worker = registry.register_for_session("com1").unwrap();
    let guard = SerialSessionShutdownGuard::new(&mut registry, "com1".to_string());
    let guard = guard.end_if_idle(&mut registry).expect("a worker still runs");
    assert!(registry.is_session_shutting_down("com1"));
    assert!(registry.register_for_session("com1").is_err());
    registry.release(worker);
    assert!(guard.end_if_idle(&mut registry).is_none());
    assert!(!registry.is_session_shutting_down("com1"));
    assert!(registry.register_for_session("com1").is_ok());
}
