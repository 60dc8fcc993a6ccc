use portmate_ssh::listener_probe::RemoteListenerProbe;
use portmate_ssh::profile::TunnelMode;
use portmate_ssh::tunnel::TunnelMetrics;
use portmate_ssh::tunnel_health::{
    listener_probe_from_exec, listener_probe_needs_windows_fallback, listener_restore_verdict,
    record_remote_tunnel_health, remote_tunnel_check_precondition,
    remote_tunnel_health_after_probe, remote_tunnel_monitor_after_acceptor,
    remote_tunnel_monitor_after_check, remote_tunnel_monitor_next, RemoteTunnelHealth,
    TunnelMonitorStep,
};

#[test]
fn probe_exec_results_are_read() {
    let windows = Ok("__PORTMATE_WINDOWS_TCP__\n22\n8080\n".to_string());
    assert_eq!(listener_probe_from_exec(&windows, 8080, true), Ok(RemoteListenerProbe::Listening));
    assert_eq!(listener_probe_from_exec(&windows, 9090, true), Ok(RemoteListenerProbe::Missing));
    let unsupported = Ok("__PORTMATE_UNSUPPORTED__\n".to_string());
    assert_eq!(
        listener_probe_from_exec(&unsupported, 22, false),
        Ok(RemoteListenerProbe::Unsupported)
    );
    let nonzero = Err("SSH exec 返回非零状态 127: not found".to_string());
    assert_eq!(listener_probe_from_exec(&nonzero, 22, false), Ok(RemoteListenerProbe::Unsupported));
    let failed = Err("SSH exec 超时".to_string());
    assert_eq!(
        listener_probe_from_exec(&failed, 22, false),
        Err("listener probe failed: SSH exec 超时".to_string())
    );
    assert_eq!(
        listener_probe_from_exec(&failed, 22, true),
        Err("Windows listener probe failed: SSH exec 超时".to_string())
    );
}

#[test]
fn probe_results_map_to_health() {
    assert!(listener_probe_needs_windows_fallback(RemoteListenerProbe::Unsupported));
    assert!(!listener_probe_needs_windows_fallback(RemoteListenerProbe::Missing));
    assert_eq!(
        remote_tunnel_health_after_probe(RemoteListenerProbe::Listening, false),
        Some(RemoteTunnelHealth::Healthy)
    );
    assert_eq!(
        remote_tunnel_health_after_probe(RemoteListenerProbe::Listening, true),
        Some(RemoteTunnelHealth::Restored)
    );
    assert_eq!(
        remote_tunnel_health_after_probe(RemoteListenerProbe::Unsupported, true),
        Some(RemoteTunnelHealth::Unsupported)
    );
    assert_eq!(remote_tunnel_health_after_probe(RemoteListenerProbe::Missing, false), None);
}

#[test]
fn listener_restore_checks_the_returned_port() {
    assert_eq!(
        listener_restore_verdict(8080, 8081, false),
        Err("listener restore returned unexpected port 8081 for 8080".to_string())
    );
    assert_eq!(
        listener_restore_verdict(8080, 8080, true),
        Err("tunnel closed during listener restore".to_string())
    );
    assert_eq!(listener_restore_verdict(8080, 8080, false), Ok(RemoteTunnelHealth::Restored));
}

#[test]
fn health_checks_apply_to_open_remote_forwards() {
    assert_eq!(
        remote_tunnel_check_precondition(TunnelMode::Local, false, "t1"),
        Err("tunnel is not a remote forward: t1".to_string())
    );
    assert_eq!(
        remote_tunnel_check_precondition(TunnelMode::Remote, true, "t1"),
        Err("remote tunnel is closed: t1".to_string())
    );
    assert_eq!(remote_tunnel_check_precondition(TunnelMode::Remote, false, "t1"), Ok(()));
}

#[test]
fn a_repeated_failure_is_reported_once_and_recovery_clears_it() {
    let mut metrics = TunnelMetrics::default();
    let failure = Err("listener probe failed: boom".to_string());
    assert_eq!(
        record_remote_tunnel_health(&mut metrics, &failure),
        Some("remote forward health check failed: listener probe failed: boom".to_string())
    );
    assert_eq!(
        metrics.last_error.as_deref(),
        Some("remote forward health check failed: listener probe failed: boom")
    );
    assert_eq!(record_remote_tunnel_health(&mut metrics, &failure), None);
    assert_eq!(
        record_remote_tunnel_health(&mut metrics, &Ok(RemoteTunnelHealth::Healthy)),
        Some("remote forward is healthy again".to_string())
    );
    assert_eq!(metrics.last_error, None);
    assert_eq!(record_remote_tunnel_health(&mut metrics, &Ok(RemoteTunnelHealth::Healthy)), None);
}

#[test]
fn a_restore_is_always_reported_and_other_errors_stay() {
    let mut metrics = TunnelMetrics::default();
    metrics.last_error = Some("connect refused".to_string());
    assert_eq!(
        record_remote_tunnel_health(&mut metrics, &Ok(RemoteTunnelHealth::Restored)),
        Some("remote forward listener was missing and has been restored".to_string())
    );
    assert_eq!(metrics.last_error.as_deref(), Some("connect refused"));
    assert_eq!(record_remote_tunnel_health(&mut metrics, &Ok(RemoteTunnelHealth::Healthy)), None);
    assert_eq!(metrics.last_error.as_deref(), Some("connect refused"));
    assert_eq!(
        record_remote_tunnel_health(&mut metrics, &Ok(RemoteTunnelHealth::Unsupported)),
        None
    );
}

#[test]
fn the_monitor_falls_back_to_the_acceptor() {
    assert_eq!(remote_tunnel_monitor_next(true, true), TunnelMonitorStep::Stop);
    assert_eq!(remote_tunnel_monitor_next(false, false), TunnelMonitorStep::EnsureAcceptor);
    assert_eq!(remote_tunnel_monitor_next(false, true), TunnelMonitorStep::CheckHealth);
    assert!(remote_tunnel_monitor_after_check(&Ok(RemoteTunnelHealth::Unsupported)));
    assert!(!remote_tunnel_monitor_after_check(&Ok(RemoteTunnelHealth::Healthy)));
    assert!(!remote_tunnel_monitor_after_check(&Err("x".to_string())));
    assert_eq!(remote_tunnel_monitor_after_acceptor(&Ok(true), true), Some(false));
    assert_eq!(remote_tunnel_monitor_after_acceptor(&Ok(false), true), None);
    assert_eq!(remote_tunnel_monitor_after_acceptor(&Err("x".to_string()), true), Some(true));
}
