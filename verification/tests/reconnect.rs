use portmate_ssh::identity::{AgentOfferMode, AgentPolicy, IdentityPolicy};
use portmate_ssh::profile::{
    ConnectionConfig, HostKeyMode, HostKeyPolicy, HostKeyScope, SessionProfile, SshConnection,
    TrustedHostKey,
};
use portmate_ssh::identity::AuthMethod;
use portmate_ssh::reconnect::{
    reconnect_after_failure, reconnect_after_install, reconnect_after_profile_lookup,
    reconnect_after_stop_request, reconnect_wait_step, ssh_reconnect_install_decision,
    ssh_reconnected_event, ReconnectLoopStep, ReconnectWaitStep, SshReconnectInstallDecision,
    ssh_reconnect_delay, ssh_reconnect_failure_disposition, ssh_reconnect_failure_texts,
    ssh_reconnect_pending, ssh_reconnect_should_stop, ssh_reconnect_stopped_event,
    ssh_runtime_connected, SessionRuntimeStatus, SessionStatus, SshReconnectFailureDisposition,
    ignore_host_key_last_seen_for_establishment, ssh_reconnect_attempt_matches_profile,
    ssh_reconnect_enabled, ssh_reconnect_profile_state, LibsshSetupDeadline,
    SshReconnectProfileState,
};

fn key(id: &str) -> TrustedHostKey {
    TrustedHostKey {
        id: id.to_string(),
        profile_id: None,
        alias: "server".to_string(),
        host: "h".to_string(),
        port: 22,
        algorithm: "ssh-ed25519".to_string(),
        fingerprint_sha256: "F".to_string(),
        public_key_base64: "AAAA".to_string(),
        scope: HostKeyScope::User,
        label: None,
        first_seen: 10,
        last_seen: 99,
    }
}

fn ssh_profile(reconnect: bool) -> SessionProfile {
    SessionProfile {
        id: "p".to_string(),
        connection: ConnectionConfig::Ssh(SshConnection {
            identity_policy: IdentityPolicy { auth_order: vec![], last_successful: None, record_success: false, identities_only: false },
            agent_policy: AgentPolicy { enabled: false, offer_mode: AgentOfferMode::AfterProfileKeys },
            identity_refs: vec![],
            host_key_policy: HostKeyPolicy {
                mode: HostKeyMode::TrustOnFirstUse,
                check_ip: false,
                trust_scope: HostKeyScope::User,
            },
            trusted_host_keys: vec![key("a"), key("b")],
            tunnels: vec![],
            reconnect,
            reconnect_delay_ms: 5000,
        }),
    }
}

#[test]
fn reconnect_follows_the_profile_flag() {
    assert!(ssh_reconnect_enabled(&ssh_profile(true)));
    assert!(!ssh_reconnect_enabled(&ssh_profile(false)));
    let shell = SessionProfile { id: "s".to_string(), connection: ConnectionConfig::Shell };
    assert!(!ssh_reconnect_enabled(&shell));
}

#[test]
fn establishment_ignores_when_keys_were_last_seen() {
    let mut profile = ssh_profile(true);
    ignore_host_key_last_seen_for_establishment(&mut profile);
    match &profile.connection {
        ConnectionConfig::Ssh(s) => {
            assert!(s.trusted_host_keys.iter().all(|k| k.last_seen == k.first_seen));
            assert_eq!(s.trusted_host_keys.len(), 2);
        }
        _ => panic!("expected SSH"),
    }
}

#[test]
fn setup_deadline_counts_down() {
    let deadline = LibsshSetupDeadline::from_started_at(1_000, 500).unwrap();
    assert_eq!(deadline.deadline, 1_500);
    assert_eq!(deadline.remaining_at(1_200), Some(300));
    assert_eq!(deadline.remaining_at(1_500), None);
    assert_eq!(deadline.remaining_at(2_000), None);
    assert_eq!(
        LibsshSetupDeadline::from_started_at(u128::MAX, 1).unwrap_err(),
        "libssh setup deadline is outside the supported range"
    );
}

#[test]
fn reconnect_attempts_follow_the_latest_profile() {
    let on = ssh_profile(true);
    let off = ssh_profile(false);
    assert_eq!(ssh_reconnect_profile_state(None, true), SshReconnectProfileState::Disabled);
    assert_eq!(ssh_reconnect_profile_state(Some(&off), true), SshReconnectProfileState::Disabled);
    assert_eq!(ssh_reconnect_profile_state(Some(&on), false), SshReconnectProfileState::Changed);
    assert_eq!(ssh_reconnect_profile_state(Some(&on), true), SshReconnectProfileState::Current);
    assert!(ssh_reconnect_attempt_matches_profile(&on, true));
    assert!(!ssh_reconnect_attempt_matches_profile(&off, true));
    assert!(!ssh_reconnect_attempt_matches_profile(&on, false));
}

#[test]
fn reconnect_delays_stay_within_limits() {
    assert_eq!(ssh_reconnect_delay(&ssh_profile(true), 500, 60_000, 3_000), 5_000);
    let shell = SessionProfile { id: "sh".to_string(), connection: ConnectionConfig::Shell };
    assert_eq!(ssh_reconnect_delay(&shell, 500, 60_000, 3_000), 3_000);
    assert_eq!(ssh_reconnect_delay(&ssh_profile(true), 6_000, 60_000, 3_000), 6_000);
    assert_eq!(ssh_reconnect_delay(&ssh_profile(true), 100, 900, 3_000), 900);
}

fn runtime(session: &str, status: SessionStatus) -> SessionRuntimeStatus {
    SessionRuntimeStatus { session_id: session.to_string(), status }
}

#[test]
fn pending_reconnects_and_connected_runtimes() {
    let runtimes = vec![runtime("a", SessionStatus::Connected), runtime("p", SessionStatus::Reconnecting)];
    assert!(ssh_reconnect_pending(false, Some("r1"), "r1", &runtimes, "p"));
    assert!(!ssh_reconnect_pending(true, Some("r1"), "r1", &runtimes, "p"));
    assert!(!ssh_reconnect_pending(false, Some("r2"), "r1", &runtimes, "p"));
    assert!(!ssh_reconnect_pending(false, None, "r1", &runtimes, "p"));
    assert!(!ssh_reconnect_pending(false, Some("r1"), "r1", &runtimes, "a"));
    assert!(ssh_runtime_connected(Some("r1"), false, "r1", &runtimes, "a"));
    assert!(!ssh_runtime_connected(Some("r1"), true, "r1", &runtimes, "a"));
    assert!(!ssh_runtime_connected(Some("r1"), false, "r1", &runtimes, "p"));
}

#[test]
fn failed_reconnects_are_disposed_of() {
    assert_eq!(
        ssh_reconnect_failure_disposition(false, Some(SshReconnectProfileState::Changed)),
        SshReconnectFailureDisposition::Superseded
    );
    assert_eq!(
        ssh_reconnect_failure_disposition(true, Some(SshReconnectProfileState::Changed)),
        SshReconnectFailureDisposition::RetryLatestProfile
    );
    assert_eq!(
        ssh_reconnect_failure_disposition(true, Some(SshReconnectProfileState::Disabled)),
        SshReconnectFailureDisposition::StopDisabled
    );
    assert_eq!(
        ssh_reconnect_failure_disposition(true, Some(SshReconnectProfileState::Current)),
        SshReconnectFailureDisposition::Recorded
    );
    assert_eq!(ssh_reconnect_failure_disposition(true, None), SshReconnectFailureDisposition::Recorded);
    let (reason, event) = ssh_reconnect_failure_texts("timed out", 5000);
    assert_eq!(reason, "SSH reconnect failed: timed out");
    assert_eq!(event, "PortMate: SSH reconnect failed: timed out; retrying in 5000ms");
}

#[test]
fn reconnects_stop_when_the_profile_no_longer_asks() {
    assert!(ssh_reconnect_should_stop(true, None));
    assert!(ssh_reconnect_should_stop(true, Some(&ssh_profile(false))));
    assert!(!ssh_reconnect_should_stop(true, Some(&ssh_profile(true))));
    assert!(!ssh_reconnect_should_stop(false, None));
    assert_eq!(
        ssh_reconnect_stopped_event("profile deleted", 2),
        "PortMate: SSH reconnect stopped: profile deleted; stopped 2 tunnel runtime(s)"
    );
}

#[test]
fn the_reconnect_loop_follows_the_profile() {
    assert_eq!(reconnect_after_profile_lookup(&Ok(true)), ReconnectLoopStep::Establish);
    assert_eq!(
        reconnect_after_profile_lookup(&Ok(false)),
        ReconnectLoopStep::StopIfDisabled("automatic reconnect disabled by latest profile".to_string())
    );
    assert_eq!(reconnect_after_profile_lookup(&Err("lock".to_string())), ReconnectLoopStep::RecordFailure);
    assert_eq!(
        reconnect_after_failure(SshReconnectFailureDisposition::Superseded, true),
        ReconnectLoopStep::Exit
    );
    assert_eq!(
        reconnect_after_failure(SshReconnectFailureDisposition::StopDisabled, true),
        ReconnectLoopStep::StopIfDisabled(
            "automatic reconnect disabled while the previous attempt was running".to_string()
        )
    );
    assert_eq!(
        reconnect_after_failure(SshReconnectFailureDisposition::StopDisabled, false),
        ReconnectLoopStep::NextAttempt
    );
    assert_eq!(
        reconnect_after_failure(SshReconnectFailureDisposition::RetryLatestProfile, true),
        ReconnectLoopStep::NextAttempt
    );
    assert_eq!(reconnect_after_stop_request(true), ReconnectLoopStep::Exit);
    assert_eq!(reconnect_after_stop_request(false), ReconnectLoopStep::NextAttempt);
}

#[test]
fn reconnected_sessions_are_installed_only_while_current() {
    let on = ssh_profile(true);
    let off = ssh_profile(false);
    assert_eq!(
        ssh_reconnect_install_decision(false, false, Some(&on), true),
        SshReconnectInstallDecision::Superseded
    );
    assert_eq!(
        ssh_reconnect_install_decision(true, true, Some(&on), true),
        SshReconnectInstallDecision::Superseded
    );
    assert_eq!(ssh_reconnect_install_decision(true, false, None, true), SshReconnectInstallDecision::Stop);
    assert_eq!(
        ssh_reconnect_install_decision(true, false, Some(&off), true),
        SshReconnectInstallDecision::Stop
    );
    assert_eq!(
        ssh_reconnect_install_decision(true, false, Some(&on), false),
        SshReconnectInstallDecision::Retry
    );
    assert_eq!(
        ssh_reconnect_install_decision(true, false, Some(&on), true),
        SshReconnectInstallDecision::Install
    );
    assert_eq!(reconnect_after_install(SshReconnectInstallDecision::Install), None);
    assert_eq!(
        reconnect_after_install(SshReconnectInstallDecision::Superseded),
        Some(("PortMate SSH reconnect superseded".to_string(), ReconnectLoopStep::Exit))
    );
    assert_eq!(
        reconnect_after_install(SshReconnectInstallDecision::Stop),
        Some((
            "PortMate SSH reconnect disabled".to_string(),
            ReconnectLoopStep::StopIfDisabled("automatic reconnect disabled by latest profile".to_string())
        ))
    );
}

#[test]
fn waiting_for_the_next_attempt() {
    assert_eq!(reconnect_wait_step(false, &Ok(Some(1000)), 0, 250), ReconnectWaitStep::GiveUp);
    assert_eq!(reconnect_wait_step(true, &Ok(Some(1000)), 0, 250), ReconnectWaitStep::Sleep(250));
    assert_eq!(reconnect_wait_step(true, &Ok(Some(1000)), 900, 250), ReconnectWaitStep::Sleep(100));
    assert_eq!(reconnect_wait_step(true, &Ok(Some(1000)), 1000, 250), ReconnectWaitStep::Attempt);
    assert_eq!(reconnect_wait_step(true, &Err("lock".to_string()), 0, 250), ReconnectWaitStep::Sleep(250));
    assert_eq!(
        reconnect_wait_step(true, &Ok(None), 0, 250),
        ReconnectWaitStep::StopIfDisabled(
            "automatic reconnect disabled while waiting for the next attempt".to_string()
        )
    );
    assert_eq!(
        ssh_reconnected_event(AuthMethod::PublicKey, 2, 1),
        "PortMate: SSH session reconnected via PublicKey; restored 2 tunnel(s), 1 failed"
    );
}
