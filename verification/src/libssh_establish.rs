//! Establishing an SSH runtime over libssh (the backend for GSSAPI), as
//! decisions between the outside steps: reach the target through jump
//! hosts, a proxy or directly; connect; check the host key; look up saved
//! secrets; authenticate; keep the host key; open the terminal. Every step
//! runs under one setup deadline; a failure after the transport exists
//! cleans up under a label that names the step, then reports its error.
use vstd::prelude::*;
use crate::text::{decimal, push_str, u128_to_decimal};

verus! {

/// Where establishing the libssh runtime stands.
#[derive(Clone, Copy, Debug, PartialEq, Eq, Structural)]
pub enum LibsshStage {
    Start,
    ReachingTarget,
    Connecting,
    CheckingHostKey,
    LoadingSecrets,
    Authenticating,
    PersistingHostKey,
    OpeningTerminal,
    Done,
}

/// How a step that runs on a blocking worker under the deadline ended.
#[derive(Clone, Debug, PartialEq, Eq)]
pub enum WorkerOutcome {
    Finished,
    Failed(String),
    /// The worker itself failed (it panicked or was cancelled).
    WorkerFailed(String),
    TimedOut,
}

/// What checking the server's host key found.
#[derive(Clone, Debug, PartialEq, Eq)]
pub enum HostKeyCheck {
    Accepted,
    /// Recording the observed key failed.
    ObservationFailed(String),
    /// Recording the verdict failed.
    VerdictStateFailed(String),
    Rejected(String),
}

/// What the outside step just performed gave back.
#[derive(Clone, Debug, PartialEq, Eq)]
pub enum LibsshEvent {
    /// Start: whether the profile has jump hosts or a proxy, and whether the
    /// setup deadline has time left.
    Begin { via_jumps: bool, via_proxy: bool, time_left: bool },
    /// Reaching the target through jump hosts or the proxy failed.
    TransportFailed(String),
    ProxyTimedOut,
    /// The jump hosts gave back a session, not a channel.
    UnexpectedTargetSession,
    /// The bridge between the jump channel and libssh did not start.
    BridgeFailed(String),
    /// The transport is there; whether time is left, and whether the agent
    /// socket path (if any) is valid UTF-8.
    TransportReady { time_left: bool, agent_path_valid: bool },
    Connected(WorkerOutcome),
    HostKeyChecked(HostKeyCheck),
    /// The saved password and passphrase were looked up (each only when
    /// none was given), with the error of each lookup that failed; whether
    /// time is left for authentication.
    SecretsLoaded { password_error: Option<String>, passphrase_error: Option<String>, time_left: bool },
    /// Authentication ended; stopping the filtered agent proxy (if any) may
    /// have failed.
    Authenticated { outcome: WorkerOutcome, proxy_stop_error: Option<String> },
    /// Keeping the host key may have failed; whether agent forwarding is asked for without
    /// an agent socket; whether time is left for the terminal.
    HostKeyPersisted { persist_error: Option<String>, forwarding_without_socket: bool, time_left: bool },
    /// The terminal setup ended; taking the profile snapshot may have failed.
    TerminalOpened { outcome: WorkerOutcome, snapshot_error: Option<String> },
}

/// What to do next.
#[derive(Clone, Debug, PartialEq, Eq)]
pub enum LibsshAction {
    ConnectJumps,
    ConnectProxy,
    UseDirectTransport,
    Connect,
    CheckHostKey,
    LoadSecrets,
    Authenticate,
    PersistHostKey,
    OpenTerminal,
    /// Disconnect the jump sessions with `reason`, then fail with `error`.
    DisconnectJumps { reason: String, error: String },
    /// Clean up what was opened (the libssh session too when
    /// `session_open`) under `label`, then fail with `error`.
    Abort { label: String, session_open: bool, error: String },
    /// Fail with the error; nothing needs cleaning up.
    Fail(String),
    Ready,
    /// The event does not belong to this stage; nothing changes.
    Ignored,
}

/// `prefix（ms ms）`.
pub open spec fn timeout_text(prefix: Seq<char>, ms: u128) -> Seq<char> {
    prefix + "（"@ + decimal(ms as nat) + " ms）"@
}

fn timeout_message(prefix: &str, ms: u128) -> (r: String)
    ensures
        r@ == timeout_text(prefix@, ms),
{
    let mut r = String::from_str(prefix);
    push_str(&mut r, "（");
    let d = u128_to_decimal(ms);
    push_str(&mut r, d.as_str());
    push_str(&mut r, " ms）");
    r
}

/// `a` cleans up under `label` and fails with `error`.
pub open spec fn aborts(a: LibsshAction, label: Seq<char>, session_open: bool, error: Seq<char>) -> bool {
    a matches LibsshAction::Abort { label: l, session_open: o, error: e } && l@ == label && o == session_open
        && e@ == error
}

/// `a` fails with `error`.
pub open spec fn fails(a: LibsshAction, error: Seq<char>) -> bool {
    a matches LibsshAction::Fail(e) && e@ == error
}

/// The error of a worker step that did not finish: its own error, the
/// worker's failure after `worker_prefix`, or the timeout.
pub open spec fn worker_error(o: WorkerOutcome, worker_prefix: Seq<char>, timeout_prefix: Seq<char>, ms: u128) -> Seq<
    char,
> {
    match o {
        WorkerOutcome::Failed(e) => e@,
        WorkerOutcome::WorkerFailed(e) => worker_prefix + e@,
        _ => timeout_text(timeout_prefix, ms),
    }
}

fn worker_message(o: &WorkerOutcome, worker_prefix: &str, timeout_prefix: &str, ms: u128) -> (r: String)
    ensures
        r@ == worker_error(*o, worker_prefix@, timeout_prefix@, ms),
{
    match o {
        WorkerOutcome::Failed(e) => e.clone(),
        WorkerOutcome::WorkerFailed(e) => {
            let mut r = String::from_str(worker_prefix);
            push_str(&mut r, e.as_str());
            r
        },
        _ => timeout_message(timeout_prefix, ms),
    }
}

fn abort(label: &str, session_open: bool, error: String) -> (r: (LibsshStage, LibsshAction))
    ensures
        r.0 == LibsshStage::Done,
        aborts(r.1, label@, session_open, error@),
{
    (LibsshStage::Done, LibsshAction::Abort { label: String::from_str(label), session_open, error })
}

/// The next stage and action after `event` at `stage`; `timeout_ms` is the
/// connect timeout that the setup deadline was made from.
pub fn libssh_establish_next(stage: LibsshStage, event: LibsshEvent, timeout_ms: u128) -> (r: (
    LibsshStage,
    LibsshAction,
))
    ensures
        match (stage, event) {
            (LibsshStage::Start, LibsshEvent::Begin { via_jumps, via_proxy, time_left }) => if via_jumps {
                if time_left {
                    r.0 == LibsshStage::ReachingTarget && r.1 == LibsshAction::ConnectJumps
                } else {
                    r.0 == LibsshStage::Done && fails(r.1, timeout_text("libssh Jump Host 连接超时"@, timeout_ms))
                }
            } else if via_proxy {
                if time_left {
                    r.0 == LibsshStage::ReachingTarget && r.1 == LibsshAction::ConnectProxy
                } else {
                    r.0 == LibsshStage::Done && fails(r.1, timeout_text("libssh SSH 代理连接超时"@, timeout_ms))
                }
            } else {
                r.0 == LibsshStage::ReachingTarget && r.1 == LibsshAction::UseDirectTransport
            },
            (LibsshStage::ReachingTarget, LibsshEvent::TransportFailed(e)) => r.0 == LibsshStage::Done && fails(
                r.1,
                e@,
            ),
            (LibsshStage::ReachingTarget, LibsshEvent::ProxyTimedOut) => r.0 == LibsshStage::Done && fails(
                r.1,
                timeout_text("libssh SSH 代理连接超时"@, timeout_ms),
            ),
            (LibsshStage::ReachingTarget, LibsshEvent::UnexpectedTargetSession) => r.0 == LibsshStage::Done
                && fails(r.1, "libssh Jump Host returned an unexpected target session"@),
            (LibsshStage::ReachingTarget, LibsshEvent::BridgeFailed(e)) => r.0 == LibsshStage::Done && (r.1 matches LibsshAction::DisconnectJumps {
                reason,
                error,
            } && reason@ == "PortMate libssh jump transport bridge setup failed"@ && error@ == e@),
            (LibsshStage::ReachingTarget, LibsshEvent::TransportReady { time_left, agent_path_valid }) => if !time_left {
                r.0 == LibsshStage::Done && aborts(
                    r.1,
                    "connect deadline"@,
                    false,
                    timeout_text("libssh SSH 连接超时"@, timeout_ms),
                )
            } else if !agent_path_valid {
                r.0 == LibsshStage::Done && aborts(
                    r.1,
                    "agent socket validation"@,
                    false,
                    "libssh SSH agent socket path is not valid UTF-8"@,
                )
            } else {
                r.0 == LibsshStage::Connecting && r.1 == LibsshAction::Connect
            },
            (LibsshStage::Connecting, LibsshEvent::Connected(o)) => match o {
                WorkerOutcome::Finished => r.0 == LibsshStage::CheckingHostKey && r.1 == LibsshAction::CheckHostKey,
                WorkerOutcome::Failed(_) => r.0 == LibsshStage::Done && aborts(
                    r.1,
                    "connection"@,
                    false,
                    worker_error(o, "libssh 连接 worker 失败: "@, "libssh 连接超时"@, timeout_ms),
                ),
                WorkerOutcome::WorkerFailed(_) => r.0 == LibsshStage::Done && aborts(
                    r.1,
                    "connection worker"@,
                    false,
                    worker_error(o, "libssh 连接 worker 失败: "@, "libssh 连接超时"@, timeout_ms),
                ),
                WorkerOutcome::TimedOut => r.0 == LibsshStage::Done && aborts(
                    r.1,
                    "connection timeout"@,
                    false,
                    timeout_text("libssh 连接超时"@, timeout_ms),
                ),
            },
            (LibsshStage::CheckingHostKey, LibsshEvent::HostKeyChecked(c)) => match c {
                HostKeyCheck::Accepted => r.0 == LibsshStage::LoadingSecrets && r.1 == LibsshAction::LoadSecrets,
                HostKeyCheck::ObservationFailed(e) => r.0 == LibsshStage::Done && aborts(
                    r.1,
                    "host key observation"@,
                    true,
                    e@,
                ),
                HostKeyCheck::VerdictStateFailed(e) => r.0 == LibsshStage::Done && aborts(
                    r.1,
                    "host key verification state"@,
                    true,
                    e@,
                ),
                HostKeyCheck::Rejected(e) => r.0 == LibsshStage::Done && aborts(
                    r.1,
                    "host key verification"@,
                    true,
                    e@,
                ),
            },
            (LibsshStage::LoadingSecrets, LibsshEvent::SecretsLoaded { password_error, passphrase_error, time_left }) => match password_error {
                Some(e) => r.0 == LibsshStage::Done && aborts(r.1, "password lookup"@, true, e@),
                None => match passphrase_error {
                    Some(e) => r.0 == LibsshStage::Done && aborts(r.1, "passphrase lookup"@, true, e@),
                    None => if time_left {
                        r.0 == LibsshStage::Authenticating && r.1 == LibsshAction::Authenticate
                    } else {
                        r.0 == LibsshStage::Done && aborts(
                            r.1,
                            "authentication deadline"@,
                            true,
                            timeout_text("libssh SSH 认证超时"@, timeout_ms),
                        )
                    },
                },
            },
            (LibsshStage::Authenticating, LibsshEvent::Authenticated { outcome, proxy_stop_error }) => match proxy_stop_error {
                Some(e) => r.0 == LibsshStage::Done && aborts(r.1, "agent proxy shutdown"@, true, e@),
                None => if outcome == WorkerOutcome::Finished {
                    r.0 == LibsshStage::PersistingHostKey && r.1 == LibsshAction::PersistHostKey
                } else {
                    r.0 == LibsshStage::Done && aborts(
                        r.1,
                        "authentication"@,
                        true,
                        worker_error(outcome, "libssh SSH 认证 worker 失败: "@, "libssh SSH 认证超时"@, timeout_ms),
                    )
                },
            },
            (
                LibsshStage::PersistingHostKey,
                LibsshEvent::HostKeyPersisted { persist_error, forwarding_without_socket, time_left },
            ) => match persist_error {
                Some(e) => r.0 == LibsshStage::Done && aborts(r.1, "host key persistence"@, true, e@),
                None => if forwarding_without_socket {
                    r.0 == LibsshStage::Done && aborts(
                        r.1,
                        "agent forwarding validation"@,
                        true,
                        "SSH agent forwarding requires an SSH agent socket"@,
                    )
                } else if !time_left {
                    r.0 == LibsshStage::Done && aborts(
                        r.1,
                        "terminal setup deadline"@,
                        true,
                        timeout_text("libssh 终端 setup 超时"@, timeout_ms),
                    )
                } else {
                    r.0 == LibsshStage::OpeningTerminal && r.1 == LibsshAction::OpenTerminal
                },
            },
            (LibsshStage::OpeningTerminal, LibsshEvent::TerminalOpened { outcome, snapshot_error }) => match outcome {
                WorkerOutcome::Finished => match snapshot_error {
                    Some(e) => r.0 == LibsshStage::Done && aborts(r.1, "profile snapshot"@, true, e@),
                    None => r.0 == LibsshStage::Done && r.1 == LibsshAction::Ready,
                },
                WorkerOutcome::Failed(_) => r.0 == LibsshStage::Done && aborts(
                    r.1,
                    "terminal setup"@,
                    true,
                    worker_error(outcome, "libssh 终端 worker 失败: "@, "libssh 终端 setup 超时"@, timeout_ms),
                ),
                WorkerOutcome::WorkerFailed(_) => r.0 == LibsshStage::Done && aborts(
                    r.1,
                    "terminal worker"@,
                    true,
                    worker_error(outcome, "libssh 终端 worker 失败: "@, "libssh 终端 setup 超时"@, timeout_ms),
                ),
                WorkerOutcome::TimedOut => r.0 == LibsshStage::Done && aborts(
                    r.1,
                    "terminal setup timeout"@,
                    true,
                    timeout_text("libssh 终端 setup 超时"@, timeout_ms),
                ),
            },
            _ => r.0 == stage && r.1 == LibsshAction::Ignored,
        },
{
    match (stage, event) {
        (LibsshStage::Start, LibsshEvent::Begin { via_jumps, via_proxy, time_left }) => {
            if via_jumps {
                if time_left {
                    (LibsshStage::ReachingTarget, LibsshAction::ConnectJumps)
                } else {
                    (LibsshStage::Done, LibsshAction::Fail(timeout_message("libssh Jump Host 连接超时", timeout_ms)))
                }
            } else if via_proxy {
                if time_left {
                    (LibsshStage::ReachingTarget, LibsshAction::ConnectProxy)
                } else {
                    (LibsshStage::Done, LibsshAction::Fail(timeout_message("libssh SSH 代理连接超时", timeout_ms)))
                }
            } else {
                (LibsshStage::ReachingTarget, LibsshAction::UseDirectTransport)
            }
        },
        (LibsshStage::ReachingTarget, LibsshEvent::TransportFailed(e)) => (LibsshStage::Done, LibsshAction::Fail(e)),
        (LibsshStage::ReachingTarget, LibsshEvent::ProxyTimedOut) => {
            (LibsshStage::Done, LibsshAction::Fail(timeout_message("libssh SSH 代理连接超时", timeout_ms)))
        },
        (LibsshStage::ReachingTarget, LibsshEvent::UnexpectedTargetSession) => {
            (
                LibsshStage::Done,
                LibsshAction::Fail(String::from_str("libssh Jump Host returned an unexpected target session")),
            )
        },
        (LibsshStage::ReachingTarget, LibsshEvent::BridgeFailed(e)) => {
            (
                LibsshStage::Done,
                LibsshAction::DisconnectJumps {
                    reason: String::from_str("PortMate libssh jump transport bridge setup failed"),
                    error: e,
                },
            )
        },
        (LibsshStage::ReachingTarget, LibsshEvent::TransportReady { time_left, agent_path_valid }) => {
            if !time_left {
                abort("connect deadline", false, timeout_message("libssh SSH 连接超时", timeout_ms))
            } else if !agent_path_valid {
                abort(
                    "agent socket validation",
                    false,
                    String::from_str("libssh SSH agent socket path is not valid UTF-8"),
                )
            } else {
                (LibsshStage::Connecting, LibsshAction::Connect)
            }
        },
        (LibsshStage::Connecting, LibsshEvent::Connected(o)) => {
            let label = match o {
                WorkerOutcome::Finished => {
                    return (LibsshStage::CheckingHostKey, LibsshAction::CheckHostKey);
                },
                WorkerOutcome::Failed(_) => "connection",
                WorkerOutcome::WorkerFailed(_) => "connection worker",
                WorkerOutcome::TimedOut => "connection timeout",
            };
            let e = worker_message(&o, "libssh 连接 worker 失败: ", "libssh 连接超时", timeout_ms);
            abort(label, false, e)
        },
        (LibsshStage::CheckingHostKey, LibsshEvent::HostKeyChecked(c)) => match c {
            HostKeyCheck::Accepted => (LibsshStage::LoadingSecrets, LibsshAction::LoadSecrets),
            HostKeyCheck::ObservationFailed(e) => abort("host key observation", true, e),
            HostKeyCheck::VerdictStateFailed(e) => abort("host key verification state", true, e),
            HostKeyCheck::Rejected(e) => abort("host key verification", true, e),
        },
        (LibsshStage::LoadingSecrets, LibsshEvent::SecretsLoaded { password_error, passphrase_error, time_left }) => {
            match password_error {
                Some(e) => abort("password lookup", true, e),
                None => match passphrase_error {
                    Some(e) => abort("passphrase lookup", true, e),
                    None => if time_left {
                        (LibsshStage::Authenticating, LibsshAction::Authenticate)
                    } else {
                        abort("authentication deadline", true, timeout_message("libssh SSH 认证超时", timeout_ms))
                    },
                },
            }
        },
        (LibsshStage::Authenticating, LibsshEvent::Authenticated { outcome, proxy_stop_error }) => {
            match proxy_stop_error {
                Some(e) => abort("agent proxy shutdown", true, e),
                None => match outcome {
                    WorkerOutcome::Finished => (LibsshStage::PersistingHostKey, LibsshAction::PersistHostKey),
                    _ => {
                        let e = worker_message(
                            &outcome,
                            "libssh SSH 认证 worker 失败: ",
                            "libssh SSH 认证超时",
                            timeout_ms,
                        );
                        abort("authentication", true, e)
                    },
                },
            }
        },
        (
            LibsshStage::PersistingHostKey,
            LibsshEvent::HostKeyPersisted { persist_error, forwarding_without_socket, time_left },
        ) => match persist_error {
            Some(e) => abort("host key persistence", true, e),
            None => if forwarding_without_socket {
                abort(
                    "agent forwarding validation",
                    true,
                    String::from_str("SSH agent forwarding requires an SSH agent socket"),
                )
            } else if !time_left {
                abort("terminal setup deadline", true, timeout_message("libssh 终端 setup 超时", timeout_ms))
            } else {
                (LibsshStage::OpeningTerminal, LibsshAction::OpenTerminal)
            },
        },
        (LibsshStage::OpeningTerminal, LibsshEvent::TerminalOpened { outcome, snapshot_error }) => {
            let label = match outcome {
                WorkerOutcome::Finished => {
                    return match snapshot_error {
                        Some(e) => abort("profile snapshot", true, e),
                        None => (LibsshStage::Done, LibsshAction::Ready),
                    };
                },
                WorkerOutcome::Failed(_) => "terminal setup",
                WorkerOutcome::WorkerFailed(_) => "terminal worker",
                WorkerOutcome::TimedOut => "terminal setup timeout",
            };
            let e = worker_message(&outcome, "libssh 终端 worker 失败: ", "libssh 终端 setup 超时", timeout_ms);
            abort(label, true, e)
        },
        (stage, _) => (stage, LibsshAction::Ignored),
    }
}

} // verus!
