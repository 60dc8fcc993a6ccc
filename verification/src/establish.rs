//! Establishing the SSH runtime of a session, as decisions between the
//! outside steps: the checks on the profile before any connection, then
//! connect, authenticate, keep the host key, open the terminal channel, and
//! on a failure close what was opened and report the error.
use vstd::prelude::*;
use crate::channel::SshTerminalSetupError;
use crate::key_auth::SshAuthenticationError;
use crate::text::{decimal, push_str, to_chars, trim, trim_string, u64_to_decimal};

verus! {

/// The endpoint host and user name of a profile, each trimmed; refused for
/// a profile that is not SSH-backed, then for a blank host, then for a
/// blank user name (the system's ssh_config is not consulted).
pub fn ssh_runtime_preflight(ssh_backed: bool, host: &str, username: &str) -> (r: Result<(String, String), String>)
    ensures
        !ssh_backed ==> (r matches Err(e) && e@ == "profile is not SSH-backed"@),
        ssh_backed && trim(host@).len() == 0 ==> (r matches Err(e) && e@ == "SSH 主机不能为空"@),
        ssh_backed && trim(host@).len() > 0 && trim(username@).len() == 0 ==> (r matches Err(e) && e@
            == "SSH 用户名不能为空；PortMate 不读取系统 ssh_config 的默认用户名"@),
        ssh_backed && trim(host@).len() > 0 && trim(username@).len() > 0 ==> (r matches Ok((h, u)) && h@
            == trim(host@) && u@ == trim(username@)),
{
    if !ssh_backed {
        return Err(String::from_str("profile is not SSH-backed"));
    }
    let h = trim_string(host);
    if to_chars(h.as_str()).len() == 0 {
        return Err(String::from_str("SSH 主机不能为空"));
    }
    let u = trim_string(username);
    if to_chars(u.as_str()).len() == 0 {
        return Err(String::from_str("SSH 用户名不能为空；PortMate 不读取系统 ssh_config 的默认用户名"));
    }
    Ok((h, u))
}

/// Where establishing the runtime stands.
#[derive(Clone, Debug, PartialEq, Eq)]
pub enum EstablishStage {
    Connecting,
    Authenticating,
    PersistingHostKey,
    OpeningChannel,
    /// Closing the sessions after a failure; `error` is reported once they
    /// are closed.
    Closing { error: String },
    Done,
}

/// What the outside step just performed gave back.
#[derive(Clone, Debug, PartialEq, Eq)]
pub enum EstablishEvent {
    /// The target is reached; `jump_channel` when the connection came back
    /// as a Jump Host transport, which this establishment does not use.
    TargetConnected { jump_channel: bool },
    Authenticated,
    AuthenticationFailed(SshAuthenticationError),
    HostKeyPersisted,
    HostKeyRefused(String),
    ChannelOpened,
    ChannelFailed(SshTerminalSetupError),
    /// The sessions were closed; the target's disconnect request may have
    /// left a warning.
    SessionsClosed { cleanup_warning: Option<String> },
}

/// What to do next.
#[derive(Clone, Debug, PartialEq, Eq)]
pub enum EstablishAction {
    Authenticate,
    PersistHostKey,
    OpenChannel,
    /// Close the jump sessions with `reason`, and first ask the target to
    /// disconnect with the same reason when `disconnect_target`.
    Close { disconnect_target: bool, reason: String },
    Fail(String),
    /// The runtime is established.
    Ready,
    /// The event does not belong to this stage; nothing changes.
    Ignored,
}

/// `; ` and the warning, or nothing.
pub open spec fn warning_suffix(w: Option<String>) -> Seq<char> {
    match w {
        Some(w) => "; "@ + w@,
        None => Seq::empty(),
    }
}

/// The next stage and action after `event` at `stage`, for a target at
/// `host:port`.
pub fn establish_next(stage: EstablishStage, event: EstablishEvent, host: &str, port: u16) -> (r: (
    EstablishStage,
    EstablishAction,
))
    ensures
        match (stage, event) {
            (EstablishStage::Connecting, EstablishEvent::TargetConnected { jump_channel }) => if jump_channel {
                r.0 == EstablishStage::Done && (r.1 matches EstablishAction::Fail(e) && e@
                    == "SSH target returned an unexpected Jump Host transport"@)
            } else {
                r.0 == EstablishStage::Authenticating && r.1 == EstablishAction::Authenticate
            },
            (EstablishStage::Authenticating, EstablishEvent::Authenticated) => r.0
                == EstablishStage::PersistingHostKey && r.1 == EstablishAction::PersistHostKey,
            (EstablishStage::Authenticating, EstablishEvent::AuthenticationFailed(error)) => (r.0 matches EstablishStage::Closing {
                error: e,
            } && e@ == "SSH 目标认证失败 "@ + host@ + ":"@ + decimal(port as nat) + ": "@ + error.message_view())
                && (r.1 matches EstablishAction::Close { disconnect_target, reason } && disconnect_target
                == (error is Failed) && reason@ == "PortMate target authentication failed"@),
            (EstablishStage::PersistingHostKey, EstablishEvent::HostKeyPersisted) => r.0
                == EstablishStage::OpeningChannel && r.1 == EstablishAction::OpenChannel,
            (EstablishStage::PersistingHostKey, EstablishEvent::HostKeyRefused(error)) => (r.0 matches EstablishStage::Closing {
                error: e,
            } && e@ == error@) && (r.1 matches EstablishAction::Close { disconnect_target, reason }
                && disconnect_target && reason@ == "PortMate target host key persistence failed"@),
            (EstablishStage::OpeningChannel, EstablishEvent::ChannelOpened) => r.0 == EstablishStage::Done
                && r.1 == EstablishAction::Ready,
            (EstablishStage::OpeningChannel, EstablishEvent::ChannelFailed(error)) => (r.0 matches EstablishStage::Closing {
                error: e,
            } && e@ == error.message_view()) && (r.1 matches EstablishAction::Close {
                disconnect_target,
                reason,
            } && disconnect_target == (error is Failed) && reason@
                == "PortMate terminal channel setup failed"@),
            (EstablishStage::Closing { error }, EstablishEvent::SessionsClosed { cleanup_warning }) => r.0
                == EstablishStage::Done && (r.1 matches EstablishAction::Fail(e) && e@ == error@
                + warning_suffix(cleanup_warning)),
            _ => r.0 == stage && r.1 == EstablishAction::Ignored,
        },
{
    match (stage, event) {
        (EstablishStage::Connecting, EstablishEvent::TargetConnected { jump_channel }) => {
            if jump_channel {
                (
                    EstablishStage::Done,
                    EstablishAction::Fail(
                        String::from_str("SSH target returned an unexpected Jump Host transport"),
                    ),
                )
            } else {
                (EstablishStage::Authenticating, EstablishAction::Authenticate)
            }
        },
        (EstablishStage::Authenticating, EstablishEvent::Authenticated) => {
            (EstablishStage::PersistingHostKey, EstablishAction::PersistHostKey)
        },
        (EstablishStage::Authenticating, EstablishEvent::AuthenticationFailed(error)) => {
            let mut e = String::from_str("SSH 目标认证失败 ");
            push_str(&mut e, host);
            push_str(&mut e, ":");
            let p = u64_to_decimal(port as u64);
            push_str(&mut e, p.as_str());
            push_str(&mut e, ": ");
            let m = error.message();
            push_str(&mut e, m.as_str());
            let disconnect_target = match error {
                SshAuthenticationError::Failed(_) => true,
                _ => false,
            };
            (
                EstablishStage::Closing { error: e },
                EstablishAction::Close {
                    disconnect_target,
                    reason: String::from_str("PortMate target authentication failed"),
                },
            )
        },
        (EstablishStage::PersistingHostKey, EstablishEvent::HostKeyPersisted) => {
            (EstablishStage::OpeningChannel, EstablishAction::OpenChannel)
        },
        (EstablishStage::PersistingHostKey, EstablishEvent::HostKeyRefused(error)) => {
            (
                EstablishStage::Closing { error },
                EstablishAction::Close {
                    disconnect_target: true,
                    reason: String::from_str("PortMate target host key persistence failed"),
                },
            )
        },
        (EstablishStage::OpeningChannel, EstablishEvent::ChannelOpened) => {
            (EstablishStage::Done, EstablishAction::Ready)
        },
        (EstablishStage::OpeningChannel, EstablishEvent::ChannelFailed(error)) => {
            let m = error.message();
            let disconnect_target = match error {
                SshTerminalSetupError::Failed(_) => true,
                _ => false,
            };
            (
                EstablishStage::Closing { error: m },
                EstablishAction::Close {
                    disconnect_target,
                    reason: String::from_str("PortMate terminal channel setup failed"),
                },
            )
        },
        (EstablishStage::Closing { error }, EstablishEvent::SessionsClosed { cleanup_warning }) => {
            let mut e = error;
            match cleanup_warning {
                Some(w) => {
                    push_str(&mut e, "; ");
                    push_str(&mut e, w.as_str());
                },
                None => {
                    assert(e@ + Seq::<char>::empty() =~= e@);
                },
            }
            (EstablishStage::Done, EstablishAction::Fail(e))
        },
        (stage, _) => (stage, EstablishAction::Ignored),
    }
}

} // verus!
