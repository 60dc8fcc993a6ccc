use portmate_ssh::libssh_establish::{
    libssh_establish_next, HostKeyCheck, LibsshAction, LibsshEvent, LibsshStage, WorkerOutcome,
};

fn abort(label: &str, session_open: bool, error: &str) -> LibsshAction {
    LibsshAction::Abort { label: label.to_string(), session_open, error: error.to_string() }
}

#[test]
fn a_direct_libssh_establishment_walks_every_step() {
    let (s, a) = libssh_establish_next(
        LibsshStage::Start,
        LibsshEvent::Begin { via_jumps: false, via_proxy: false, time_left: true },
        5000,
    );
    assert_eq!((s, a), (LibsshStage::ReachingTarget, LibsshAction::UseDirectTransport));
    let (s, a) = libssh_establish_next(s, LibsshEvent::TransportReady { time_left: true, agent_path_valid: true }, 5000);
    assert_eq!((s, a), (LibsshStage::Connecting, LibsshAction::Connect));
    let (s, a) = libssh_establish_next(s, LibsshEvent::Connected(WorkerOutcome::Finished), 5000);
    assert_eq!((s, a), (LibsshStage::CheckingHostKey, LibsshAction::CheckHostKey));
    let (s, a) = libssh_establish_next(s, LibsshEvent::HostKeyChecked(HostKeyCheck::Accepted), 5000);
    assert_eq!((s, a), (LibsshStage::LoadingSecrets, LibsshAction::LoadSecrets));
    let (s, a) = libssh_establish_next(
        s,
        LibsshEvent::SecretsLoaded { password_error: None, passphrase_error: None, time_left: true },
        5000,
    );
    assert_eq!((s, a), (LibsshStage::Authenticating, LibsshAction::Authenticate));
    let (s, a) = libssh_establish_next(
        s,
        LibsshEvent::Authenticated { outcome: WorkerOutcome::Finished, proxy_stop_error: None },
        5000,
    );
    assert_eq!((s, a), (LibsshStage::PersistingHostKey, LibsshAction::PersistHostKey));
    let (s, a) = libssh_establish_next(
        s,
        LibsshEvent::HostKeyPersisted { persist_error: None, forwarding_without_socket: false, time_left: true },
        5000,
    );
    assert_eq!((s, a), (LibsshStage::OpeningTerminal, LibsshAction::OpenTerminal));
    let (s, a) = libssh_establish_next(
        s,
        LibsshEvent::TerminalOpened { outcome: WorkerOutcome::Finished, snapshot_error: None },
        5000,
    );
    assert_eq!((s, a), (LibsshStage::Done, LibsshAction::Ready));
}

#[test]
fn deadlines_and_transport_failures_are_reported() {
    let (_, a) = libssh_establish_next(
        LibsshStage::Start,
        LibsshEvent::Begin { via_jumps: true, via_proxy: true, time_left: false },
        700,
    );
    assert_eq!(a, LibsshAction::Fail("libssh Jump Host 连接超时（700 ms）".to_string()));
    let (s, a) = libssh_establish_next(
        LibsshStage::Start,
        LibsshEvent::Begin { via_jumps: false, via_proxy: true, time_left: true },
        700,
    );
    assert_eq!(a, LibsshAction::ConnectProxy);
    let (_, a) = libssh_establish_next(s, LibsshEvent::ProxyTimedOut, 700);
    assert_eq!(a, LibsshAction::Fail("libssh SSH 代理连接超时（700 ms）".to_string()));
    let (_, a) = libssh_establish_next(LibsshStage::ReachingTarget, LibsshEvent::BridgeFailed("no bridge".to_string()), 700);
    assert_eq!(
        a,
        LibsshAction::DisconnectJumps {
            reason: "PortMate libssh jump transport bridge setup failed".to_string(),
            error: "no bridge".to_string()
        }
    );
    let (_, a) = libssh_establish_next(LibsshStage::ReachingTarget, LibsshEvent::UnexpectedTargetSession, 700);
    assert_eq!(a, LibsshAction::Fail("libssh Jump Host returned an unexpected target session".to_string()));
    let (_, a) = libssh_establish_next(
        LibsshStage::ReachingTarget,
        LibsshEvent::TransportReady { time_left: false, agent_path_valid: false },
        700,
    );
    assert_eq!(a, abort("connect deadline", false, "libssh SSH 连接超时（700 ms）"));
    let (_, a) = libssh_establish_next(
        LibsshStage::ReachingTarget,
        LibsshEvent::TransportReady { time_left: true, agent_path_valid: false },
        700,
    );
    assert_eq!(a, abort("agent socket validation", false, "libssh SSH agent socket path is not valid UTF-8"));
}

#[test]
fn worker_failures_name_the_step() {
    let (_, a) = libssh_establish_next(LibsshStage::Connecting, LibsshEvent::Connected(WorkerOutcome::Failed("refused".to_string())), 9);
    assert_eq!(a, abort("connection", false, "refused"));
    let (_, a) = libssh_establish_next(LibsshStage::Connecting, LibsshEvent::Connected(WorkerOutcome::WorkerFailed("panic".to_string())), 9);
    assert_eq!(a, abort("connection worker", false, "libssh 连接 worker 失败: panic"));
    let (_, a) = libssh_establish_next(LibsshStage::Connecting, LibsshEvent::Connected(WorkerOutcome::TimedOut), 9);
    assert_eq!(a, abort("connection timeout", false, "libssh 连接超时（9 ms）"));
    let (_, a) = libssh_establish_next(
        LibsshStage::Authenticating,
        LibsshEvent::Authenticated { outcome: WorkerOutcome::TimedOut, proxy_stop_error: None },
        9,
    );
    assert_eq!(a, abort("authentication", true, "libssh SSH 认证超时（9 ms）"));
    let (_, a) = libssh_establish_next(
        LibsshStage::Authenticating,
        LibsshEvent::Authenticated { outcome: WorkerOutcome::Failed("denied".to_string()), proxy_stop_error: Some("proxy".to_string()) },
        9,
    );
    assert_eq!(a, abort("agent proxy shutdown", true, "proxy"));
    let (_, a) = libssh_establish_next(
        LibsshStage::OpeningTerminal,
        LibsshEvent::TerminalOpened { outcome: WorkerOutcome::WorkerFailed("gone".to_string()), snapshot_error: None },
        9,
    );
    assert_eq!(a, abort("terminal worker", true, "libssh 终端 worker 失败: gone"));
    let (_, a) = libssh_establish_next(
        LibsshStage::OpeningTerminal,
        LibsshEvent::TerminalOpened { outcome: WorkerOutcome::Finished, snapshot_error: Some("snap".to_string()) },
        9,
    );
    assert_eq!(a, abort("profile snapshot", true, "snap"));
}

#[test]
fn host_key_secret_and_forwarding_failures_abort() {
    let (_, a) = libssh_establish_next(LibsshStage::CheckingHostKey, LibsshEvent::HostKeyChecked(HostKeyCheck::Rejected("mismatch".to_string())), 1);
    assert_eq!(a, abort("host key verification", true, "mismatch"));
    let (_, a) = libssh_establish_next(
        LibsshStage::LoadingSecrets,
        LibsshEvent::SecretsLoaded { password_error: Some("vault".to_string()), passphrase_error: Some("x".to_string()), time_left: true },
        1,
    );
    assert_eq!(a, abort("password lookup", true, "vault"));
    let (_, a) = libssh_establish_next(
        LibsshStage::LoadingSecrets,
        LibsshEvent::SecretsLoaded { password_error: None, passphrase_error: None, time_left: false },
        1,
    );
    assert_eq!(a, abort("authentication deadline", true, "libssh SSH 认证超时（1 ms）"));
    let (_, a) = libssh_establish_next(
        LibsshStage::PersistingHostKey,
        LibsshEvent::HostKeyPersisted { persist_error: None, forwarding_without_socket: true, time_left: false },
        1,
    );
    assert_eq!(a, abort("agent forwarding validation", true, "SSH agent forwarding requires an SSH agent socket"));
    let (s, a) = libssh_establish_next(LibsshStage::Done, LibsshEvent::ProxyTimedOut, 1);
    assert_eq!((s, a), (LibsshStage::Done, LibsshAction::Ignored));
}
