//! Decisions of the remote-forward health check: how the exec result of a
//! listener probe is read, what the probe means for the tunnel, what a check
//! records in the tunnel's metrics, and how the periodic monitor goes on.
use vstd::prelude::*;
use crate::listener_probe::{parse_remote_listener_probe, probe_result, RemoteListenerProbe};
use crate::profile::TunnelMode;
use crate::text::{decimal, opt_view, push_str, u64_to_decimal};
use crate::tunnel::{recorded_if_changed, starts_with, TunnelMetrics};

verus! {

/// The health of a remote forward after a check.
#[derive(Clone, Copy, Debug, PartialEq, Eq, Structural)]
pub enum RemoteTunnelHealth {
    Healthy,
    Restored,
    Unsupported,
}

/// `s` begins with `p`.
pub open spec fn begins_with(s: Seq<char>, p: Seq<char>) -> bool {
    s.len() >= p.len() && s.subrange(0, p.len() as int) == p
}

/// The start of the error of an exec whose command exited non-zero.
pub open spec fn nonzero_exit_prefix() -> Seq<char> {
    "SSH exec 返回非零状态"@
}

/// The start of every error that the health check records.
pub open spec fn health_error_prefix() -> Seq<char> {
    "remote forward health check failed:"@
}

/// What precedes an exec failure in the error of the first probe, or of the
/// Windows fallback probe.
pub open spec fn probe_failure_label(windows_fallback: bool) -> Seq<char> {
    if windows_fallback {
        "Windows listener probe failed: "@
    } else {
        "listener probe failed: "@
    }
}

/// What the exec result of a listener probe says about `port`: the output is
/// read; a command that exited non-zero means that the probe is not
/// supported there; any other failure is an error.
pub open spec fn probe_from_exec(
    result: Result<Seq<char>, Seq<char>>,
    port: u16,
    windows_fallback: bool,
) -> Result<RemoteListenerProbe, Seq<char>> {
    match result {
        Ok(output) => Ok(probe_result(output, port)),
        Err(e) => if begins_with(e, nonzero_exit_prefix()) {
            Ok(RemoteListenerProbe::Unsupported)
        } else {
            Err(probe_failure_label(windows_fallback) + e)
        },
    }
}

pub open spec fn result_view(r: Result<String, String>) -> Result<Seq<char>, Seq<char>> {
    match r {
        Ok(s) => Ok(s@),
        Err(e) => Err(e@),
    }
}

/// Reads the exec result of a listener probe for `port`.
pub fn listener_probe_from_exec(
    result: &Result<String, String>,
    port: u16,
    windows_fallback: bool,
) -> (r: Result<RemoteListenerProbe, String>)
    ensures
        result_view_probe(r) == probe_from_exec(result_view(*result), port, windows_fallback),
{
    match result {
        Ok(output) => Ok(parse_remote_listener_probe(output.as_str(), port)),
        Err(e) => {
            if starts_with(e.as_str(), "SSH exec 返回非零状态") {
                proof {
                    reveal_strlit("SSH exec 返回非零状态");
                }
                Ok(RemoteListenerProbe::Unsupported)
            } else {
                let mut m = if windows_fallback {
                    String::from_str("Windows listener probe failed: ")
                } else {
                    String::from_str("listener probe failed: ")
                };
                push_str(&mut m, e.as_str());
                proof {
                    reveal_strlit("SSH exec 返回非零状态");
                }
                Err(m)
            }
        },
    }
}

pub open spec fn result_view_probe(r: Result<RemoteListenerProbe, String>) -> Result<RemoteListenerProbe, Seq<char>> {
    match r {
        Ok(p) => Ok(p),
        Err(e) => Err(e@),
    }
}

/// The Windows fallback probe runs when the first probe is not supported.
pub fn listener_probe_needs_windows_fallback(probe: RemoteListenerProbe) -> (r: bool)
    ensures
        r == (probe == RemoteListenerProbe::Unsupported),
{
    match probe {
        RemoteListenerProbe::Unsupported => true,
        _ => false,
    }
}

/// The health that a probe shows: a listening port is healthy, or restored
/// when its routing had to be put back; none when the listener is missing
/// and must be restored.
pub open spec fn health_after_probe(probe: RemoteListenerProbe, routing_restored: bool) -> Option<RemoteTunnelHealth> {
    match probe {
        RemoteListenerProbe::Listening => Some(
            if routing_restored {
                RemoteTunnelHealth::Restored
            } else {
                RemoteTunnelHealth::Healthy
            },
        ),
        RemoteListenerProbe::Unsupported => Some(RemoteTunnelHealth::Unsupported),
        RemoteListenerProbe::Missing => None,
    }
}

pub fn remote_tunnel_health_after_probe(probe: RemoteListenerProbe, routing_restored: bool) -> (r: Option<
    RemoteTunnelHealth,
>)
    ensures
        r == health_after_probe(probe, routing_restored),
{
    match probe {
        RemoteListenerProbe::Listening => Some(
            if routing_restored {
                RemoteTunnelHealth::Restored
            } else {
                RemoteTunnelHealth::Healthy
            },
        ),
        RemoteListenerProbe::Unsupported => Some(RemoteTunnelHealth::Unsupported),
        RemoteListenerProbe::Missing => None,
    }
}

/// The outcome of putting a missing listener back: the server must bind the
/// port that was asked for, and the tunnel must still be open.
pub fn listener_restore_verdict(requested_port: u16, returned_port: u16, closed: bool) -> (r: Result<
    RemoteTunnelHealth,
    String,
>)
    ensures
        returned_port != requested_port ==> (r matches Err(e) && e@ == "listener restore returned unexpected port "@
            + decimal(returned_port as nat) + " for "@ + decimal(requested_port as nat)),
        returned_port == requested_port && closed ==> (r matches Err(e) && e@
            == "tunnel closed during listener restore"@),
        returned_port == requested_port && !closed ==> r == Ok::<RemoteTunnelHealth, String>(
            RemoteTunnelHealth::Restored,
        ),
{
    if returned_port != requested_port {
        let mut e = String::from_str("listener restore returned unexpected port ");
        let returned = u64_to_decimal(returned_port as u64);
        push_str(&mut e, returned.as_str());
        push_str(&mut e, " for ");
        let requested = u64_to_decimal(requested_port as u64);
        push_str(&mut e, requested.as_str());
        return Err(e);
    }
    if closed {
        return Err(String::from_str("tunnel closed during listener restore"));
    }
    Ok(RemoteTunnelHealth::Restored)
}

/// A health check applies only to an open remote forward.
pub fn remote_tunnel_check_precondition(mode: TunnelMode, closed: bool, tunnel_id: &str) -> (r: Result<
    (),
    String,
>)
    ensures
        mode != TunnelMode::Remote ==> (r matches Err(e) && e@ == "tunnel is not a remote forward: "@
            + tunnel_id@),
        mode == TunnelMode::Remote && closed ==> (r matches Err(e) && e@ == "remote tunnel is closed: "@
            + tunnel_id@),
        mode == TunnelMode::Remote && !closed ==> r is Ok,
{
    match mode {
        TunnelMode::Remote => {},
        _ => {
            let mut e = String::from_str("tunnel is not a remote forward: ");
            push_str(&mut e, tunnel_id);
            return Err(e);
        },
    }
    if closed {
        let mut e = String::from_str("remote tunnel is closed: ");
        push_str(&mut e, tunnel_id);
        return Err(e);
    }
    Ok(())
}

/// The metrics agree on the counters.
pub open spec fn same_counters(a: TunnelMetrics, b: TunnelMetrics) -> bool {
    &&& a.active_connections == b.active_connections
    &&& a.total_connections == b.total_connections
    &&& a.tcp_to_ssh_bytes == b.tcp_to_ssh_bytes
    &&& a.ssh_to_tcp_bytes == b.ssh_to_tcp_bytes
}

/// The latest error is one that the health check recorded.
pub open spec fn has_health_error(m: TunnelMetrics) -> bool {
    m.last_error matches Some(e) && begins_with(e@, health_error_prefix())
}

/// `b` is `a` with an error of the health check forgotten; `cleared` tells
/// whether there was one.
pub open spec fn health_error_cleared(a: TunnelMetrics, b: TunnelMetrics, cleared: bool) -> bool {
    &&& cleared == has_health_error(a)
    &&& cleared ==> b.last_error is None && crate::tunnel::activity_after(a.last_activity, b.last_activity) && same_counters(a, b)
    &&& !cleared ==> b == a
}

/// The error that the health check records for a failed check.
pub open spec fn health_error_message(error: Seq<char>) -> Seq<char> {
    health_error_prefix() + " "@ + error
}

pub open spec fn result_view_health(r: Result<RemoteTunnelHealth, String>) -> Result<RemoteTunnelHealth, Seq<char>> {
    match r {
        Ok(h) => Ok(h),
        Err(e) => Err(e@),
    }
}

/// `b` and `event` are what recording the check result `result` in `a`
/// gives.
pub open spec fn health_recorded(
    a: TunnelMetrics,
    result: Result<RemoteTunnelHealth, Seq<char>>,
    b: TunnelMetrics,
    event: Option<Seq<char>>,
) -> bool {
    match result {
        Ok(RemoteTunnelHealth::Healthy) => health_error_cleared(a, b, event is Some) && (event is Some
            ==> event == Some("remote forward is healthy again"@)),
        Ok(RemoteTunnelHealth::Restored) => health_error_cleared(a, b, has_health_error(a)) && event
            == Some("remote forward listener was missing and has been restored"@),
        Ok(RemoteTunnelHealth::Unsupported) => b == a && event is None,
        Err(e) => recorded_if_changed(a, health_error_message(e), b, event is Some) && (event is Some
            ==> event == Some(health_error_message(e))),
    }
}

/// A failed check followed by a healthy one reports the recovery and leaves
/// no error; the failure is reported once however often it repeats.
pub proof fn lemma_failure_then_recovery(
    a: TunnelMetrics,
    b: TunnelMetrics,
    c: TunnelMetrics,
    d: TunnelMetrics,
    error: Seq<char>,
    first: Option<Seq<char>>,
    second: Option<Seq<char>>,
    third: Option<Seq<char>>,
)
    requires
        health_recorded(a, Err(error), b, first),
        health_recorded(b, Err(error), c, second),
        health_recorded(c, Ok(RemoteTunnelHealth::Healthy), d, third),
    ensures
        second is None,
        c == b,
        third == Some("remote forward is healthy again"@),
        d.last_error is None,
        same_counters(a, d),
{
    crate::tunnel::lemma_record_error_twice(a, b, c, health_error_message(error), first is Some, second is Some);
    assert(health_error_message(error).subrange(0, health_error_prefix().len() as int) =~= health_error_prefix());
}

/// Records the result of a health check in the tunnel's metrics and tells
/// which event to report: a healthy forward forgets an earlier error of the
/// check and reports its recovery if there was one; a restored one forgets it
/// and always reports the restore; a failure is recorded, and reported when
/// it is not already the latest error.
pub fn record_remote_tunnel_health(
    metrics: &mut TunnelMetrics,
    result: &Result<RemoteTunnelHealth, String>,
) -> (event: Option<String>)
    ensures
        health_recorded(*old(metrics), result_view_health(*result), *final(metrics), opt_view(event)),
{
    match result {
        Ok(RemoteTunnelHealth::Healthy) => {
            proof {
                reveal_strlit("remote forward health check failed:");
            }
            if metrics.clear_error_with_prefix("remote forward health check failed:") {
                Some(String::from_str("remote forward is healthy again"))
            } else {
                None
            }
        },
        Ok(RemoteTunnelHealth::Restored) => {
            proof {
                reveal_strlit("remote forward health check failed:");
            }
            let cleared = metrics.clear_error_with_prefix("remote forward health check failed:");
            assert(health_error_cleared(*old(metrics), *metrics, cleared));
            Some(String::from_str("remote forward listener was missing and has been restored"))
        },
        Ok(RemoteTunnelHealth::Unsupported) => None,
        Err(e) => {
            let mut message = String::from_str("remote forward health check failed:");
            push_str(&mut message, " ");
            push_str(&mut message, e.as_str());
            if metrics.record_error_if_changed(message.as_str()) {
                Some(message)
            } else {
                None
            }
        },
    }
}

/// What the periodic monitor does next.
#[derive(Clone, Copy, Debug, PartialEq, Eq, Structural)]
pub enum TunnelMonitorStep {
    Stop,
    EnsureAcceptor,
    CheckHealth,
}

/// After each interval: stop once the tunnel is closed; where the listener
/// probe is not supported, only keep the libssh acceptor running; otherwise
/// check the forward's health.
pub fn remote_tunnel_monitor_next(closed: bool, listener_probe_supported: bool) -> (r: TunnelMonitorStep)
    ensures
        closed ==> r == TunnelMonitorStep::Stop,
        !closed && !listener_probe_supported ==> r == TunnelMonitorStep::EnsureAcceptor,
        !closed && listener_probe_supported ==> r == TunnelMonitorStep::CheckHealth,
{
    if closed {
        TunnelMonitorStep::Stop
    } else if !listener_probe_supported {
        TunnelMonitorStep::EnsureAcceptor
    } else {
        TunnelMonitorStep::CheckHealth
    }
}

/// After a health check, the acceptor is ensured when the probe is not
/// supported.
pub fn remote_tunnel_monitor_after_check(result: &Result<RemoteTunnelHealth, String>) -> (ensure_acceptor: bool)
    ensures
        ensure_acceptor == (*result == Ok::<RemoteTunnelHealth, String>(RemoteTunnelHealth::Unsupported)),
{
    match result {
        Ok(RemoteTunnelHealth::Unsupported) => true,
        _ => false,
    }
}

/// After ensuring the acceptor: the monitor stops when the runtime is not a
/// libssh one; once an acceptor runs the listener probe is no longer used;
/// a failure changes nothing. The result is whether the probe is still used,
/// or none to stop.
pub fn remote_tunnel_monitor_after_acceptor(ensured: &Result<bool, String>, listener_probe_supported: bool) -> (r: Option<bool>)
    ensures
        match *ensured {
            Ok(true) => r == Some(false),
            Ok(false) => r is None,
            Err(_) => r == Some(listener_probe_supported),
        },
{
    match ensured {
        Ok(true) => Some(false),
        Ok(false) => None,
        Err(_) => Some(listener_probe_supported),
    }
}

} // verus!
