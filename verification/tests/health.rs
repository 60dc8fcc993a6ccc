use portmate_ssh::health::{
    bounded_ssh_health_error, elapsed_millis, finish_health_report, new_health_report,
    output_has_health_marker, record_channel_probe, record_sftp_probe, record_transport_probe,
    validate_ssh_health_profile_snapshot, ChannelProbeOutcome, ProbeOutcome, SshBackendKind,
    SshHealthReport, SshHealthStatus, MAX_SSH_HEALTH_ERROR_CHARACTERS,
};
use portmate_ssh::identity::AuthMethod;

fn report(open: bool) -> SshHealthReport {
    new_health_report(
        "session-1".to_string(),
        "runtime-1".to_string(),
        1_700_000_000_000,
        SshBackendKind::Russh,
        AuthMethod::PublicKey,
        open,
        true,
    )
}

#[test]
fn ssh_health_errors_are_bounded_on_character_boundaries() {
    let error = "故".repeat(MAX_SSH_HEALTH_ERROR_CHARACTERS + 1);
    let bounded = bounded_ssh_health_error(&error);
    assert_eq!(bounded.chars().count(), MAX_SSH_HEALTH_ERROR_CHARACTERS + 3);
    assert!(bounded.ends_with("..."));
}

#[test]
fn short_health_errors_are_kept_whole() {
    let error = "x".repeat(MAX_SSH_HEALTH_ERROR_CHARACTERS);
    assert_eq!(bounded_ssh_health_error(&error), error);
    assert_eq!(bounded_ssh_health_error(""), "");
}

#[test]
fn elapsed_milliseconds_saturate() {
    assert_eq!(elapsed_millis(1234), 1234);
    assert_eq!(elapsed_millis(u64::MAX as u128), u64::MAX);
    assert_eq!(elapsed_millis(u128::MAX), u64::MAX);
}

#[test]
fn health_check_refuses_another_or_changed_profile() {
    assert_eq!(
        validate_ssh_health_profile_snapshot("a", "snap", "b", Ok("snap".to_string())),
        Err("SSH 健康检查 Profile 与会话不匹配".to_string())
    );
    assert_eq!(
        validate_ssh_health_profile_snapshot("a", "snap", "a", Ok("other".to_string())),
        Err("SSH 连接配置已更改，请保存并重新连接后再检查健康状态".to_string())
    );
    assert_eq!(
        validate_ssh_health_profile_snapshot("a", "snap", "a", Err("no snapshot".to_string())),
        Err("no snapshot".to_string())
    );
    assert_eq!(
        validate_ssh_health_profile_snapshot("a", "snap", "a", Ok("snap".to_string())),
        Ok(())
    );
}

#[test]
fn new_report_reflects_the_terminal_channel() {
    let open = report(true);
    assert_eq!(open.status, SshHealthStatus::Healthy);
    assert_eq!(open.terminal_error, None);
    assert!(open.sftp_probed);
    let closed = report(false);
    assert_eq!(closed.status, SshHealthStatus::Degraded);
    assert_eq!(
        closed.terminal_error.as_deref(),
        Some("SSH 主终端 channel 已关闭或正在重连，交互输入不可用")
    );
}

#[test]
fn keepalive_outcomes_shape_the_report() {
    let mut r = report(true);
    assert!(record_transport_probe(&mut r, ProbeOutcome::Answered(12)));
    assert_eq!(r.transport_round_trip_ms, Some(12));
    assert_eq!(r.status, SshHealthStatus::Healthy);

    let mut r = report(true);
    assert!(!record_transport_probe(&mut r, ProbeOutcome::Failed("reset".to_string())));
    assert_eq!(r.status, SshHealthStatus::Unresponsive);
    assert_eq!(r.transport_error.as_deref(), Some("reset"));

    let mut r = report(true);
    assert!(!record_transport_probe(&mut r, ProbeOutcome::TimedOut));
    assert_eq!(r.status, SshHealthStatus::Unresponsive);
    assert_eq!(r.transport_error.as_deref(), Some("SSH keepalive 往返超过 3000 ms"));
}

#[test]
fn exec_channel_probe_looks_for_the_marker_line() {
    assert!(output_has_health_marker("noise\r\n  PORTMATE_SSH_HEALTH_OK  \n"));
    assert!(!output_has_health_marker("PORTMATE_SSH_HEALTH_OK_NOT"));
    assert!(!output_has_health_marker(""));

    let mut r = report(true);
    record_channel_probe(
        &mut r,
        ChannelProbeOutcome::Output { output: "PORTMATE_SSH_HEALTH_OK\n".to_string(), elapsed_ms: 7 },
    );
    assert_eq!(r.channel_round_trip_ms, Some(7));
    assert_eq!(r.status, SshHealthStatus::Healthy);

    let mut r = report(true);
    record_channel_probe(
        &mut r,
        ChannelProbeOutcome::Output { output: "nothing".to_string(), elapsed_ms: 7 },
    );
    assert_eq!(r.channel_round_trip_ms, None);
    assert_eq!(r.status, SshHealthStatus::Degraded);
    assert_eq!(r.channel_error.as_deref(), Some("SSH exec channel 未返回健康标记"));

    let mut r = report(true);
    record_channel_probe(&mut r, ChannelProbeOutcome::Failed("closed".to_string()));
    assert_eq!(r.channel_error.as_deref(), Some("closed"));
}

#[test]
fn sftp_probe_outcomes_shape_the_report() {
    let mut r = report(true);
    record_sftp_probe(&mut r, ProbeOutcome::Answered(30));
    assert_eq!(r.sftp_round_trip_ms, Some(30));
    let mut r = report(true);
    record_sftp_probe(&mut r, ProbeOutcome::Failed("boom".to_string()));
    assert_eq!(r.status, SshHealthStatus::Degraded);
    assert_eq!(r.sftp_error.as_deref(), Some("SFTP health probe failed: boom"));
    let mut r = report(true);
    record_sftp_probe(&mut r, ProbeOutcome::TimedOut);
    assert_eq!(r.sftp_error.as_deref(), Some("SFTP health probe exceeded 5000 ms"));
}

#[test]
fn finishing_checks_the_runtime_and_the_terminal() {
    let err = finish_health_report(report(true), Some("runtime-2"), true).unwrap_err();
    assert_eq!(err, "SSH runtime 在健康检查期间已变化，请重试");
    assert!(finish_health_report(report(true), None, true).is_err());

    let ok = finish_health_report(report(true), Some("runtime-1"), true).unwrap();
    assert_eq!(ok.status, SshHealthStatus::Healthy);
    assert!(ok.terminal_channel_open);

    let closed = finish_health_report(report(true), Some("runtime-1"), false).unwrap();
    assert_eq!(closed.status, SshHealthStatus::Degraded);
    assert!(!closed.terminal_channel_open);
    assert_eq!(
        closed.terminal_error.as_deref(),
        Some("SSH 主终端 channel 已关闭或正在重连，交互输入不可用")
    );

    let mut unresponsive = report(true);
    record_transport_probe(&mut unresponsive, ProbeOutcome::TimedOut);
    let closed = finish_health_report(unresponsive, Some("runtime-1"), false).unwrap();
    assert_eq!(closed.status, SshHealthStatus::Unresponsive);
}
