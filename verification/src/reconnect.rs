//! What reconnecting an SSH session looks at in its profile, and the
//! deadline of a libssh session setup.
//!
//! Clock readings are nanoseconds on the caller's monotonic clock.
use vstd::prelude::*;
use crate::host_keys::{keys_replaced, profile_keys};
use crate::profile::{ConnectionConfig, SessionProfile, TrustedHostKey, ssh_of};
use crate::identity::AuthMethod;
use crate::libssh_auth::{method_name, method_name_text};
use crate::text::{decimal, push_str, u64_to_decimal};

verus! {

/// Whether the profile asks for its SSH session to be reconnected.
pub fn ssh_reconnect_enabled(profile: &SessionProfile) -> (r: bool)
    ensures
        r == (ssh_of(profile.connection) matches Some(s) && s.reconnect),
{
    match &profile.connection {
        ConnectionConfig::Ssh(ssh) => ssh.reconnect,
        ConnectionConfig::Tmux(ssh) => ssh.reconnect,
        _ => false,
    }
}

/// Whether a reconnect attempt may go on with the profile it was started
/// from.
#[derive(Clone, Copy, Debug, PartialEq, Eq, Structural)]
pub enum SshReconnectProfileState {
    /// The latest profile still asks for reconnects and establishes the
    /// same session.
    Current,
    /// The latest profile establishes a different session.
    Changed,
    /// The profile is gone or no longer asks for reconnects.
    Disabled,
}

/// An attempt started from one profile still matches the latest one: the
/// latest asks for reconnects and, as `establishment_matches` tells,
/// establishes the same session.
pub fn ssh_reconnect_attempt_matches_profile(latest: &SessionProfile, establishment_matches: bool) -> (r: bool)
    ensures
        r == ((ssh_of(latest.connection) matches Some(s) && s.reconnect) && establishment_matches),
{
    ssh_reconnect_enabled(latest) && establishment_matches
}

/// Where a reconnect attempt stands against the latest profile of its
/// session (`None` when the session has none any more);
/// `establishment_matches` tells whether the attempt's profile establishes
/// the same session as the latest.
pub fn ssh_reconnect_profile_state(latest: Option<&SessionProfile>, establishment_matches: bool) -> (r:
    SshReconnectProfileState)
    ensures
        r == match latest {
            None => SshReconnectProfileState::Disabled,
            Some(p) => if !(ssh_of(p.connection) matches Some(s) && s.reconnect) {
                SshReconnectProfileState::Disabled
            } else if !establishment_matches {
                SshReconnectProfileState::Changed
            } else {
                SshReconnectProfileState::Current
            },
        },
{
    let latest = match latest {
        Some(p) => p,
        None => return SshReconnectProfileState::Disabled,
    };
    if !ssh_reconnect_enabled(latest) {
        return SshReconnectProfileState::Disabled;
    }
    if !ssh_reconnect_attempt_matches_profile(latest, establishment_matches) {
        return SshReconnectProfileState::Changed;
    }
    SshReconnectProfileState::Current
}

/// The delay before the next reconnect attempt, in milliseconds: the
/// profile's own, kept within `min_ms` and `max_ms`, or `default_ms` for a
/// profile that is not SSH.
pub fn ssh_reconnect_delay(profile: &SessionProfile, min_ms: u64, max_ms: u64, default_ms: u64) -> (r: u64)
    requires
        min_ms <= max_ms,
    ensures
        r == match ssh_of(profile.connection) {
            Some(s) => if s.reconnect_delay_ms < min_ms {
                min_ms
            } else if s.reconnect_delay_ms > max_ms {
                max_ms
            } else {
                s.reconnect_delay_ms
            },
            None => default_ms,
        },
{
    let delay = match &profile.connection {
        ConnectionConfig::Ssh(ssh) => ssh.reconnect_delay_ms,
        ConnectionConfig::Tmux(ssh) => ssh.reconnect_delay_ms,
        _ => return default_ms,
    };
    if delay < min_ms {
        min_ms
    } else if delay > max_ms {
        max_ms
    } else {
        delay
    }
}

/// The state of a session's runtime in the store.
#[derive(Clone, Copy, Debug, PartialEq, Eq, Structural)]
pub enum SessionStatus {
    Connecting,
    Connected,
    Reconnecting,
    Disconnected,
    Blocked,
    Error,
}

/// A session runtime as the store lists it.
#[derive(Clone, Debug)]
pub struct SessionRuntimeStatus {
    pub session_id: String,
    pub status: SessionStatus,
}

/// Some runtime of the session has the status.
pub open spec fn session_has_status(runtimes: Seq<SessionRuntimeStatus>, session_id: Seq<char>, status: SessionStatus) -> bool {
    exists|i: int| 0 <= i < runtimes.len() && (#[trigger] runtimes[i]).session_id@ == session_id
        && runtimes[i].status == status
}

pub fn session_runtime_has_status(runtimes: &[SessionRuntimeStatus], session_id: &str, status: SessionStatus) -> (r: bool)
    ensures
        r == session_has_status(runtimes@, session_id@, status),
{
    let mut i: usize = 0;
    while i < runtimes.len()
        invariant
            i <= runtimes@.len(),
            forall|j: int| 0 <= j < i ==> !((#[trigger] runtimes@[j]).session_id@ == session_id@
                && runtimes@[j].status == status),
        decreases runtimes@.len() - i,
    {
        if runtimes[i].status == status && crate::text::str_eq(runtimes[i].session_id.as_str(), session_id) {
            return true;
        }
        i = i + 1;
    }
    false
}

/// The registered runtime of the session is the one with `runtime_id`.
pub open spec fn runtime_is_current(registered: Option<Seq<char>>, runtime_id: Seq<char>) -> bool {
    registered == Some(runtime_id)
}

fn is_current(registered_runtime_id: Option<&str>, runtime_id: &str) -> (r: bool)
    ensures
        r == runtime_is_current(
            match registered_runtime_id {
                Some(s) => Some(s@),
                None => None,
            },
            runtime_id@,
        ),
{
    match registered_runtime_id {
        Some(s) => crate::text::str_eq(s, runtime_id),
        None => false,
    }
}

/// A reconnect of runtime `runtime_id` is still pending: it is not closed,
/// it is still the session's registered runtime (`registered_runtime_id`),
/// and the store shows the session reconnecting.
pub fn ssh_reconnect_pending(
    closed: bool,
    registered_runtime_id: Option<&str>,
    runtime_id: &str,
    runtimes: &[SessionRuntimeStatus],
    session_id: &str,
) -> (r: bool)
    ensures
        r == (!closed && runtime_is_current(
            match registered_runtime_id {
                Some(s) => Some(s@),
                None => None,
            },
            runtime_id@,
        ) && session_has_status(runtimes@, session_id@, SessionStatus::Reconnecting)),
{
    !closed && is_current(registered_runtime_id, runtime_id) && session_runtime_has_status(
        runtimes,
        session_id,
        SessionStatus::Reconnecting,
    )
}

/// Runtime `runtime_id` is the session's registered, open runtime and the
/// store shows the session connected.
pub fn ssh_runtime_connected(
    registered_runtime_id: Option<&str>,
    registered_closed: bool,
    runtime_id: &str,
    runtimes: &[SessionRuntimeStatus],
    session_id: &str,
) -> (r: bool)
    ensures
        r == (runtime_is_current(
            match registered_runtime_id {
                Some(s) => Some(s@),
                None => None,
            },
            runtime_id@,
        ) && !registered_closed && session_has_status(runtimes@, session_id@, SessionStatus::Connected)),
{
    is_current(registered_runtime_id, runtime_id) && !registered_closed && session_runtime_has_status(
        runtimes,
        session_id,
        SessionStatus::Connected,
    )
}

/// What became of a failed reconnect attempt.
#[derive(Clone, Copy, Debug, PartialEq, Eq, Structural)]
pub enum SshReconnectFailureDisposition {
    /// The failure was recorded; the next attempt follows after the delay.
    Recorded,
    /// The profile changed: retry at once with the latest one.
    RetryLatestProfile,
    /// The profile no longer asks for reconnects.
    StopDisabled,
    /// The attempt no longer matters: closed, replaced or not reconnecting.
    Superseded,
}

/// How a failed attempt is handled: it is superseded unless it is still
/// pending; then the profile it started from (`profile_state`, when the
/// attempt knows its profile) decides whether to retry with a changed
/// profile, stop, or record the failure.
pub fn ssh_reconnect_failure_disposition(pending: bool, profile_state: Option<SshReconnectProfileState>) -> (r:
    SshReconnectFailureDisposition)
    ensures
        r == if !pending {
            SshReconnectFailureDisposition::Superseded
        } else {
            match profile_state {
                Some(SshReconnectProfileState::Changed) => SshReconnectFailureDisposition::RetryLatestProfile,
                Some(SshReconnectProfileState::Disabled) => SshReconnectFailureDisposition::StopDisabled,
                _ => SshReconnectFailureDisposition::Recorded,
            }
        },
{
    if !pending {
        return SshReconnectFailureDisposition::Superseded;
    }
    match profile_state {
        Some(SshReconnectProfileState::Changed) => SshReconnectFailureDisposition::RetryLatestProfile,
        Some(SshReconnectProfileState::Disabled) => SshReconnectFailureDisposition::StopDisabled,
        _ => SshReconnectFailureDisposition::Recorded,
    }
}

/// The status reason and the event text that record a failed attempt.
pub fn ssh_reconnect_failure_texts(error: &str, delay_ms: u64) -> (r: (String, String))
    ensures
        r.0@ == "SSH reconnect failed: "@ + error@,
        r.1@ == "PortMate: SSH reconnect failed: "@ + error@ + "; retrying in "@ + decimal(delay_ms as nat) + "ms"@,
{
    let mut reason = String::from_str("SSH reconnect failed: ");
    push_str(&mut reason, error);
    let mut event = String::from_str("PortMate: SSH reconnect failed: ");
    push_str(&mut event, error);
    push_str(&mut event, "; retrying in ");
    let d = u64_to_decimal(delay_ms);
    push_str(&mut event, d.as_str());
    push_str(&mut event, "ms");
    (reason, event)
}

/// A pending reconnect stops when its runtime is still the registered one
/// and the session's profile is gone or no longer asks for reconnects.
pub fn ssh_reconnect_should_stop(runtime_current: bool, latest: Option<&SessionProfile>) -> (r: bool)
    ensures
        r == (runtime_current && match latest {
            None => true,
            Some(p) => !(ssh_of(p.connection) matches Some(s) && s.reconnect),
        }),
{
    if !runtime_current {
        return false;
    }
    match latest {
        None => true,
        Some(p) => !ssh_reconnect_enabled(p),
    }
}

/// The event text of a reconnect that was stopped.
pub fn ssh_reconnect_stopped_event(reason: &str, stopped_tunnels: u64) -> (r: String)
    ensures
        r@ == "PortMate: SSH reconnect stopped: "@ + reason@ + "; stopped "@ + decimal(stopped_tunnels as nat)
            + " tunnel runtime(s)"@,
{
    let mut event = String::from_str("PortMate: SSH reconnect stopped: ");
    push_str(&mut event, reason);
    push_str(&mut event, "; stopped ");
    let n = u64_to_decimal(stopped_tunnels);
    push_str(&mut event, n.as_str());
    push_str(&mut event, " tunnel runtime(s)");
    event
}

/// What the reconnect loop of a session does next.
#[derive(Clone, Debug, PartialEq, Eq)]
pub enum ReconnectLoopStep {
    /// The loop ends.
    Exit,
    /// Wait for the next attempt.
    NextAttempt,
    /// Establish a session with the latest profile.
    Establish,
    /// Record the failure (see `ssh_reconnect_failure_disposition`).
    RecordFailure,
    /// Stop the pending reconnect, with this reason, if the profile no
    /// longer asks for it.
    StopIfDisabled(String),
}

/// After looking up the latest profile: `Ok(true)` when it exists and asks
/// for reconnects, `Ok(false)` when it does not.
pub fn reconnect_after_profile_lookup(lookup: &Result<bool, String>) -> (r: ReconnectLoopStep)
    ensures
        match *lookup {
            Ok(true) => r == ReconnectLoopStep::Establish,
            Ok(false) => r matches ReconnectLoopStep::StopIfDisabled(m) && m@
                == "automatic reconnect disabled by latest profile"@,
            Err(_) => r == ReconnectLoopStep::RecordFailure,
        },
{
    match lookup {
        Ok(true) => ReconnectLoopStep::Establish,
        Ok(false) => ReconnectLoopStep::StopIfDisabled(String::from_str("automatic reconnect disabled by latest profile")),
        Err(_) => ReconnectLoopStep::RecordFailure,
    }
}

/// After a failure was recorded: one from looking up the profile ends the
/// loop only when superseded; one from an attempt (`attempted`) may also
/// retry at once or stop a reconnect that was disabled meanwhile.
pub fn reconnect_after_failure(disposition: SshReconnectFailureDisposition, attempted: bool) -> (r: ReconnectLoopStep)
    ensures
        disposition == SshReconnectFailureDisposition::Superseded ==> r == ReconnectLoopStep::Exit,
        disposition == SshReconnectFailureDisposition::StopDisabled && attempted ==> (r matches ReconnectLoopStep::StopIfDisabled(
            m,
        ) && m@ == "automatic reconnect disabled while the previous attempt was running"@),
        disposition != SshReconnectFailureDisposition::Superseded && !(disposition
            == SshReconnectFailureDisposition::StopDisabled && attempted) ==> r == ReconnectLoopStep::NextAttempt,
{
    match disposition {
        SshReconnectFailureDisposition::Superseded => ReconnectLoopStep::Exit,
        SshReconnectFailureDisposition::StopDisabled => if attempted {
            ReconnectLoopStep::StopIfDisabled(
                String::from_str("automatic reconnect disabled while the previous attempt was running"),
            )
        } else {
            ReconnectLoopStep::NextAttempt
        },
        _ => ReconnectLoopStep::NextAttempt,
    }
}

/// After asking to stop a disabled reconnect: the loop ends once it did.
pub fn reconnect_after_stop_request(stopped: bool) -> (r: ReconnectLoopStep)
    ensures
        r == if stopped {
            ReconnectLoopStep::Exit
        } else {
            ReconnectLoopStep::NextAttempt
        },
{
    if stopped {
        ReconnectLoopStep::Exit
    } else {
        ReconnectLoopStep::NextAttempt
    }
}

/// What becomes of a session established by a reconnect attempt.
#[derive(Clone, Copy, Debug, PartialEq, Eq, Structural)]
pub enum SshReconnectInstallDecision {
    /// It replaces the session's runtime.
    Install,
    /// The profile changed meanwhile: drop it and try again.
    Retry,
    /// The profile is gone or no longer asks for reconnects: drop it.
    Stop,
    /// The reconnect no longer matters: drop it.
    Superseded,
}

/// Whether the established session is installed: only while the previous
/// runtime is still registered (`runtime_current`) and open, and the latest
/// profile asks for reconnects and still establishes the same session.
pub fn ssh_reconnect_install_decision(
    runtime_current: bool,
    closed: bool,
    latest: Option<&SessionProfile>,
    establishment_matches: bool,
) -> (r: SshReconnectInstallDecision)
    ensures
        r == if !runtime_current || closed {
            SshReconnectInstallDecision::Superseded
        } else {
            match latest {
                None => SshReconnectInstallDecision::Stop,
                Some(p) => if !(ssh_of(p.connection) matches Some(s) && s.reconnect) {
                    SshReconnectInstallDecision::Stop
                } else if !establishment_matches {
                    SshReconnectInstallDecision::Retry
                } else {
                    SshReconnectInstallDecision::Install
                },
            }
        },
{
    if !runtime_current || closed {
        return SshReconnectInstallDecision::Superseded;
    }
    match latest {
        None => SshReconnectInstallDecision::Stop,
        Some(p) => if !ssh_reconnect_enabled(p) {
            SshReconnectInstallDecision::Stop
        } else if !establishment_matches {
            SshReconnectInstallDecision::Retry
        } else {
            SshReconnectInstallDecision::Install
        },
    }
}

/// A session that is not installed is disconnected with a reason, and the
/// loop goes on as the decision says; an installed one needs neither.
pub fn reconnect_after_install(decision: SshReconnectInstallDecision) -> (r: Option<(String, ReconnectLoopStep)>)
    ensures
        match decision {
            SshReconnectInstallDecision::Install => r is None,
            SshReconnectInstallDecision::Retry => r matches Some((m, s)) && m@
                == "PortMate SSH reconnect profile changed"@ && s == ReconnectLoopStep::NextAttempt,
            SshReconnectInstallDecision::Stop => r matches Some((m, s)) && m@ == "PortMate SSH reconnect disabled"@
                && (s matches ReconnectLoopStep::StopIfDisabled(t) && t@ == "automatic reconnect disabled by latest profile"@),
            SshReconnectInstallDecision::Superseded => r matches Some((m, s)) && m@
                == "PortMate SSH reconnect superseded"@ && s == ReconnectLoopStep::Exit,
        },
{
    match decision {
        SshReconnectInstallDecision::Install => None,
        SshReconnectInstallDecision::Retry => Some(
            (String::from_str("PortMate SSH reconnect profile changed"), ReconnectLoopStep::NextAttempt),
        ),
        SshReconnectInstallDecision::Stop => Some(
            (
                String::from_str("PortMate SSH reconnect disabled"),
                ReconnectLoopStep::StopIfDisabled(String::from_str("automatic reconnect disabled by latest profile")),
            ),
        ),
        SshReconnectInstallDecision::Superseded => Some(
            (String::from_str("PortMate SSH reconnect superseded"), ReconnectLoopStep::Exit),
        ),
    }
}

/// What waiting for the next attempt does after each poll.
#[derive(Clone, Debug, PartialEq, Eq)]
pub enum ReconnectWaitStep {
    /// The reconnect is no longer pending.
    GiveUp,
    /// Stop the pending reconnect, with this reason, if it is disabled.
    StopIfDisabled(String),
    /// Sleep this many milliseconds and poll again.
    Sleep(u64),
    /// The delay has passed: attempt now.
    Attempt,
}

/// One poll while waiting for the next attempt: `delay_ms` is the latest
/// profile's reconnect delay (`Ok(None)` when it no longer asks for
/// reconnects), `elapsed_ms` the time waited so far, `poll_ms` the polling
/// interval.
pub fn reconnect_wait_step(pending: bool, delay_ms: &Result<Option<u64>, String>, elapsed_ms: u64, poll_ms: u64) -> (r:
    ReconnectWaitStep)
    ensures
        !pending ==> r == ReconnectWaitStep::GiveUp,
        pending ==> match *delay_ms {
            Ok(None) => r matches ReconnectWaitStep::StopIfDisabled(m) && m@
                == "automatic reconnect disabled while waiting for the next attempt"@,
            Err(_) => r == ReconnectWaitStep::Sleep(poll_ms),
            Ok(Some(d)) => if d <= elapsed_ms {
                r == ReconnectWaitStep::Attempt
            } else if d - elapsed_ms < poll_ms {
                r == ReconnectWaitStep::Sleep((d - elapsed_ms) as u64)
            } else {
                r == ReconnectWaitStep::Sleep(poll_ms)
            },
        },
{
    if !pending {
        return ReconnectWaitStep::GiveUp;
    }
    match delay_ms {
        Ok(None) => ReconnectWaitStep::StopIfDisabled(
            String::from_str("automatic reconnect disabled while waiting for the next attempt"),
        ),
        Err(_) => ReconnectWaitStep::Sleep(poll_ms),
        Ok(Some(d)) => {
            if *d <= elapsed_ms {
                ReconnectWaitStep::Attempt
            } else if *d - elapsed_ms < poll_ms {
                ReconnectWaitStep::Sleep(*d - elapsed_ms)
            } else {
                ReconnectWaitStep::Sleep(poll_ms)
            }
        },
    }
}

/// The event of a session that reconnected.
pub fn ssh_reconnected_event(auth_method: AuthMethod, restored_tunnels: u64, failed_tunnels: u64) -> (r: String)
    ensures
        r@ == "PortMate: SSH session reconnected via "@ + method_name(auth_method) + "; restored "@ + decimal(
            restored_tunnels as nat,
        ) + " tunnel(s), "@ + decimal(failed_tunnels as nat) + " failed"@,
{
    let mut r = String::from_str("PortMate: SSH session reconnected via ");
    let m = method_name_text(auth_method);
    push_str(&mut r, m.as_str());
    push_str(&mut r, "; restored ");
    let a = u64_to_decimal(restored_tunnels);
    push_str(&mut r, a.as_str());
    push_str(&mut r, " tunnel(s), ");
    let b = u64_to_decimal(failed_tunnels);
    push_str(&mut r, b.as_str());
    push_str(&mut r, " failed");
    r
}

/// The key as compared when deciding whether a session was established
/// from the same profile: its last sighting is taken to be its first.
pub open spec fn without_last_seen(k: TrustedHostKey) -> TrustedHostKey {
    TrustedHostKey { last_seen: k.first_seen, ..k }
}

fn reset_last_seen(keys: &mut Vec<TrustedHostKey>)
    ensures
        final(keys)@ == old(keys)@.map_values(|k: TrustedHostKey| without_last_seen(k)),
{
    let ghost start = keys@;
    let mut i: usize = 0;
    while i < keys.len()
        invariant
            i <= keys@.len(),
            keys@.len() == start.len(),
            forall|j: int| 0 <= j < i ==> #[trigger] keys@[j] == without_last_seen(start[j]),
            forall|j: int| i <= j < keys@.len() ==> #[trigger] keys@[j] == start[j],
        decreases keys@.len() - i,
    {
        let first = keys[i].first_seen;
        keys[i].last_seen = first;
        i = i + 1;
    }
    assert(keys@ =~= start.map_values(|k: TrustedHostKey| without_last_seen(k)));
}

/// Sets the last sighting of every mirrored host key to its first, so that
/// a key seen again does not count as a change of profile.
pub fn ignore_host_key_last_seen_for_establishment(profile: &mut SessionProfile)
    ensures
        keys_replaced(
            *old(profile),
            *final(profile),
            profile_keys(*old(profile)).map_values(|k: TrustedHostKey| without_last_seen(k)),
        ),
{
    match &mut profile.connection {
        ConnectionConfig::Ssh(ssh) => reset_last_seen(&mut ssh.trusted_host_keys),
        ConnectionConfig::Tmux(ssh) => reset_last_seen(&mut ssh.trusted_host_keys),
        _ => {},
    }
}

/// When the setup of a libssh session must be done.
#[derive(Clone, Copy, Debug, PartialEq, Eq, Structural)]
pub struct LibsshSetupDeadline {
    pub deadline: u128,
}

impl LibsshSetupDeadline {
    /// The deadline `timeout` after `started_at`, or an error when that
    /// lies beyond the clock's range.
    pub fn from_started_at(started_at: u128, timeout: u128) -> (r: Result<Self, String>)
        ensures
            r is Ok <==> started_at + timeout <= u128::MAX,
            r matches Ok(d) ==> d.deadline == started_at + timeout,
            r matches Err(e) ==> e@ == "libssh setup deadline is outside the supported range"@,
    {
        match started_at.checked_add(timeout) {
            Some(deadline) => Ok(LibsshSetupDeadline { deadline }),
            None => Err(String::from_str("libssh setup deadline is outside the supported range")),
        }
    }

    /// The time left at `now`; none once the deadline is reached.
    pub fn remaining_at(self, now: u128) -> (r: Option<u128>)
        ensures
            r == if now < self.deadline {
                Some((self.deadline - now) as u128)
            } else {
                None::<u128>
            },
    {
        if now < self.deadline {
            Some(self.deadline - now)
        } else {
            None
        }
    }
}

} // verus!
