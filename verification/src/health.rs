//! The SSH health check: how each probe's outcome shapes the report, the
//! bound on error texts, and the check that the profile being checked is
//! the one the session runs with.
//!
//! The probes themselves (a keepalive round trip, a command on an exec
//! channel, an SFTP round trip) are run by the caller, which hands their
//! outcomes to the functions here in that order.
use vstd::prelude::*;
use crate::identity::AuthMethod;
use crate::text::{line_ranges, lines, push_str, str_eq, to_chars, trim, trim_bounds, chars_eq};

verus! {

pub const MAX_SSH_HEALTH_ERROR_CHARACTERS: usize = 512;

/// How long the keepalive round trip may take, in milliseconds.
pub const SSH_HEALTH_PING_TIMEOUT_MS: u64 = 3000;

/// How long the exec channel and SFTP probes may take, in milliseconds.
pub const SSH_HEALTH_CHANNEL_TIMEOUT_MS: u64 = 5000;

/// The line the exec channel probe prints.
pub open spec fn health_marker() -> Seq<char> {
    "PORTMATE_SSH_HEALTH_OK"@
}

/// The text reported while the main terminal channel is unavailable.
pub open spec fn terminal_closed_message() -> Seq<char> {
    "SSH 主终端 channel 已关闭或正在重连，交互输入不可用"@
}

/// Overall health of a session.
#[derive(Clone, Copy, Debug, PartialEq, Eq, Structural)]
pub enum SshHealthStatus {
    Healthy,
    Degraded,
    Unresponsive,
}

/// The SSH implementation a session runs on.
#[derive(Clone, Copy, Debug, PartialEq, Eq, Structural)]
pub enum SshBackendKind {
    Russh,
    Libssh,
}

/// The result of a health check. `checked_at_unix_ms` is when it started.
#[derive(Debug)]
pub struct SshHealthReport {
    pub session_id: String,
    pub runtime_id: String,
    pub checked_at_unix_ms: i64,
    pub status: SshHealthStatus,
    pub backend: SshBackendKind,
    pub authentication_method: AuthMethod,
    pub terminal_channel_open: bool,
    pub transport_round_trip_ms: Option<u64>,
    pub channel_round_trip_ms: Option<u64>,
    pub sftp_round_trip_ms: Option<u64>,
    pub transport_error: Option<String>,
    pub terminal_error: Option<String>,
    pub channel_error: Option<String>,
    pub sftp_error: Option<String>,
    pub sftp_probed: bool,
}

/// The optional text is present and reads `t`.
pub open spec fn text_is(o: Option<String>, t: Seq<char>) -> bool {
    o matches Some(s) && s@ == t
}

/// `error` cut to its first 512 characters, marked with `...` when cut.
pub open spec fn bounded_error(error: Seq<char>) -> Seq<char> {
    if error.len() > MAX_SSH_HEALTH_ERROR_CHARACTERS {
        error.take(MAX_SSH_HEALTH_ERROR_CHARACTERS as int) + "..."@
    } else {
        error
    }
}

/// An error text bounded to 512 characters, cut on a character boundary.
pub fn bounded_ssh_health_error(error: &str) -> (r: String)
    ensures
        r@ == bounded_error(error@),
{
    let v = to_chars(error);
    if v.len() > MAX_SSH_HEALTH_ERROR_CHARACTERS {
        let mut s = crate::text::string_of(v.as_slice(), 0, MAX_SSH_HEALTH_ERROR_CHARACTERS);
        push_str(&mut s, "...");
        proof {
            assert(v@.subrange(0, MAX_SSH_HEALTH_ERROR_CHARACTERS as int) =~= error@.take(
                MAX_SSH_HEALTH_ERROR_CHARACTERS as int,
            ));
        }
        s
    } else {
        String::from_str(error)
    }
}

/// Milliseconds as the report carries them: saturated at `u64::MAX`.
pub fn elapsed_millis(elapsed_ms: u128) -> (r: u64)
    ensures
        r == if elapsed_ms > u64::MAX {
            u64::MAX as int
        } else {
            elapsed_ms as int
        },
{
    if elapsed_ms > u64::MAX as u128 {
        u64::MAX
    } else {
        elapsed_ms as u64
    }
}

/// The profile that the check was asked for is the session's, and its
/// configuration snapshot (or the reason none could be made) matches the
/// one the session was started with.
pub open spec fn snapshot_check(
    session_id: Seq<char>,
    runtime_snapshot: Seq<char>,
    expected_profile_id: Seq<char>,
    expected_snapshot: Result<Seq<char>, Seq<char>>,
) -> Result<(), Seq<char>> {
    if expected_profile_id != session_id {
        Err("SSH 健康检查 Profile 与会话不匹配"@)
    } else {
        match expected_snapshot {
            Err(e) => Err(e),
            Ok(s) => if s != runtime_snapshot {
                Err("SSH 连接配置已更改，请保存并重新连接后再检查健康状态"@)
            } else {
                Ok(())
            },
        }
    }
}

/// Refuses a health check for another profile, or for a profile whose
/// configuration changed since the session started.
pub fn validate_ssh_health_profile_snapshot(
    session_id: &str,
    runtime_snapshot: &str,
    expected_profile_id: &str,
    expected_snapshot: Result<String, String>,
) -> (r: Result<(), String>)
    ensures
        match snapshot_check(
            session_id@,
            runtime_snapshot@,
            expected_profile_id@,
            match expected_snapshot {
                Ok(s) => Ok(s@),
                Err(e) => Err(e@),
            },
        ) {
            Ok(()) => r is Ok,
            Err(e) => r matches Err(f) && f@ == e,
        },
{
    if !str_eq(expected_profile_id, session_id) {
        return Err(String::from_str("SSH 健康检查 Profile 与会话不匹配"));
    }
    match expected_snapshot {
        Err(e) => Err(e),
        Ok(s) => {
            if !str_eq(s.as_str(), runtime_snapshot) {
                Err(String::from_str("SSH 连接配置已更改，请保存并重新连接后再检查健康状态"))
            } else {
                Ok(())
            }
        },
    }
}

/// The report before any probe: healthy when the terminal channel is open,
/// degraded (with the reason) when it is not.
pub fn new_health_report(
    session_id: String,
    runtime_id: String,
    checked_at_unix_ms: i64,
    backend: SshBackendKind,
    authentication_method: AuthMethod,
    terminal_channel_open: bool,
    probe_sftp: bool,
) -> (r: SshHealthReport)
    ensures
        r.session_id == session_id,
        r.runtime_id == runtime_id,
        r.checked_at_unix_ms == checked_at_unix_ms,
        r.backend == backend,
        r.authentication_method == authentication_method,
        r.terminal_channel_open == terminal_channel_open,
        r.status == if terminal_channel_open {
            SshHealthStatus::Healthy
        } else {
            SshHealthStatus::Degraded
        },
        r.transport_round_trip_ms is None,
        r.channel_round_trip_ms is None,
        r.sftp_round_trip_ms is None,
        r.transport_error is None,
        r.channel_error is None,
        r.sftp_error is None,
        terminal_channel_open ==> r.terminal_error is None,
        !terminal_channel_open ==> text_is(r.terminal_error, terminal_closed_message()),
        r.sftp_probed == probe_sftp,
{
    SshHealthReport {
        session_id,
        runtime_id,
        checked_at_unix_ms,
        status: if terminal_channel_open {
            SshHealthStatus::Healthy
        } else {
            SshHealthStatus::Degraded
        },
        backend,
        authentication_method,
        terminal_channel_open,
        transport_round_trip_ms: None,
        channel_round_trip_ms: None,
        sftp_round_trip_ms: None,
        transport_error: None,
        terminal_error: if terminal_channel_open {
            None
        } else {
            Some(String::from_str("SSH 主终端 channel 已关闭或正在重连，交互输入不可用"))
        },
        channel_error: None,
        sftp_error: None,
        sftp_probed: probe_sftp,
    }
}

/// How a probe ended: it answered after so many milliseconds, it failed,
/// or it ran out of time.
#[derive(Debug)]
pub enum ProbeOutcome {
    Answered(u64),
    Failed(String),
    TimedOut,
}

/// Two reports agree on everything a probe does not touch.
pub open spec fn same_identity(a: SshHealthReport, b: SshHealthReport) -> bool {
    &&& a.session_id == b.session_id
    &&& a.runtime_id == b.runtime_id
    &&& a.checked_at_unix_ms == b.checked_at_unix_ms
    &&& a.backend == b.backend
    &&& a.authentication_method == b.authentication_method
    &&& a.terminal_channel_open == b.terminal_channel_open
    &&& a.terminal_error == b.terminal_error
    &&& a.sftp_probed == b.sftp_probed
}

/// Records the keepalive round trip. Returns whether the check goes on: a
/// failed or late keepalive makes the session unresponsive and ends it.
pub fn record_transport_probe(report: &mut SshHealthReport, outcome: ProbeOutcome) -> (go_on: bool)
    ensures
        same_identity(*old(report), *final(report)),
        final(report).channel_round_trip_ms == old(report).channel_round_trip_ms,
        final(report).sftp_round_trip_ms == old(report).sftp_round_trip_ms,
        final(report).channel_error == old(report).channel_error,
        final(report).sftp_error == old(report).sftp_error,
        match outcome {
            ProbeOutcome::Answered(ms) => go_on && final(report).transport_round_trip_ms == Some(ms)
                && final(report).status == old(report).status && final(report).transport_error
                == old(report).transport_error,
            ProbeOutcome::Failed(e) => !go_on && final(report).status == SshHealthStatus::Unresponsive
                && final(report).transport_round_trip_ms == old(report).transport_round_trip_ms
                && text_is(final(report).transport_error, bounded_error(e@)),
            ProbeOutcome::TimedOut => !go_on && final(report).status
                == SshHealthStatus::Unresponsive && final(report).transport_round_trip_ms == old(report).transport_round_trip_ms && text_is(final(report).transport_error, "SSH keepalive 往返超过 3000 ms"@),
        },
{
    match outcome {
        ProbeOutcome::Answered(ms) => {
            report.transport_round_trip_ms = Some(ms);
            true
        },
        ProbeOutcome::Failed(e) => {
            report.status = SshHealthStatus::Unresponsive;
            report.transport_error = Some(bounded_ssh_health_error(e.as_str()));
            false
        },
        ProbeOutcome::TimedOut => {
            report.status = SshHealthStatus::Unresponsive;
            report.transport_error = Some(String::from_str("SSH keepalive 往返超过 3000 ms"));
            false
        },
    }
}

/// Some line of the output, trimmed, is the health marker.
pub open spec fn has_marker_line(output: Seq<char>) -> bool {
    exists|k: int| 0 <= k < lines(output).len() && trim(#[trigger] lines(output)[k]) == health_marker()
}

/// Whether some line of `output`, trimmed, is the health marker.
pub fn output_has_health_marker(output: &str) -> (r: bool)
    ensures
        r == has_marker_line(output@),
{
    let v = to_chars(output);
    let ranges = line_ranges(v.as_slice());
    let marker = to_chars("PORTMATE_SSH_HEALTH_OK");
    proof {
        reveal_strlit("PORTMATE_SSH_HEALTH_OK");
    }
    let ghost ls = lines(output@);
    proof {
        assert(v@ == output@);
        assert(ls.len() == ranges@.len());
    }
    let mut k: usize = 0;
    while k < ranges.len()
        invariant
            k <= ranges@.len(),
            v@ == output@,
            marker@ == health_marker(),
            ls == lines(output@),
            ls == crate::text::range_views(v@, ranges@),
            crate::text::ranges_within(v@, ranges@),
            forall|j: int| 0 <= j < k ==> trim(#[trigger] ls[j]) != health_marker(),
        decreases ranges@.len() - k,
    {
        let (lo, hi) = ranges[k];
        let (a, b) = trim_bounds(v.as_slice(), lo, hi);
        proof {
            assert(ls[k as int] == v@.subrange(lo as int, hi as int));
        }
        if chars_eq(v.as_slice(), a, b, marker.as_slice(), 0, marker.len()) {
            proof {
                assert(marker@.subrange(0, marker@.len() as int) =~= marker@);
            }
            return true;
        }
        proof {
            assert(marker@.subrange(0, marker@.len() as int) =~= marker@);
        }
        k = k + 1;
    }
    false
}

/// How the exec channel probe ended: the command's output and how long it
/// took, or the error.
#[derive(Debug)]
pub enum ChannelProbeOutcome {
    Output { output: String, elapsed_ms: u64 },
    Failed(String),
}

/// Records the exec channel probe: the round trip when the output carries
/// the marker, else a degraded session and the reason.
pub fn record_channel_probe(report: &mut SshHealthReport, outcome: ChannelProbeOutcome)
    ensures
        same_identity(*old(report), *final(report)),
        final(report).transport_round_trip_ms == old(report).transport_round_trip_ms,
        final(report).transport_error == old(report).transport_error,
        final(report).sftp_round_trip_ms == old(report).sftp_round_trip_ms,
        final(report).sftp_error == old(report).sftp_error,
        match outcome {
            ChannelProbeOutcome::Output { output, elapsed_ms } => if has_marker_line(output@) {
                final(report).channel_round_trip_ms == Some(elapsed_ms) && final(report).status
                    == old(report).status && final(report).channel_error == old(report).channel_error
            } else {
                final(report).status == SshHealthStatus::Degraded && final(report).channel_round_trip_ms
                    == old(report).channel_round_trip_ms && text_is(final(report).channel_error, "SSH exec channel 未返回健康标记"@)
            },
            ChannelProbeOutcome::Failed(e) => final(report).status == SshHealthStatus::Degraded
                && final(report).channel_round_trip_ms == old(report).channel_round_trip_ms && text_is(final(report).channel_error, bounded_error(e@)),
        },
{
    match outcome {
        ChannelProbeOutcome::Output { output, elapsed_ms } => {
            if output_has_health_marker(output.as_str()) {
                report.channel_round_trip_ms = Some(elapsed_ms);
            } else {
                report.status = SshHealthStatus::Degraded;
                report.channel_error = Some(String::from_str("SSH exec channel 未返回健康标记"));
            }
        },
        ChannelProbeOutcome::Failed(e) => {
            report.status = SshHealthStatus::Degraded;
            report.channel_error = Some(bounded_ssh_health_error(e.as_str()));
        },
    }
}

/// The text of a failed SFTP probe, before it is bounded.
pub open spec fn sftp_failure_text(e: Seq<char>) -> Seq<char> {
    "SFTP health probe failed: "@ + e
}

/// Records the SFTP probe: the round trip, or a degraded session and the
/// reason.
pub fn record_sftp_probe(report: &mut SshHealthReport, outcome: ProbeOutcome)
    ensures
        same_identity(*old(report), *final(report)),
        final(report).transport_round_trip_ms == old(report).transport_round_trip_ms,
        final(report).transport_error == old(report).transport_error,
        final(report).channel_round_trip_ms == old(report).channel_round_trip_ms,
        final(report).channel_error == old(report).channel_error,
        match outcome {
            ProbeOutcome::Answered(ms) => final(report).sftp_round_trip_ms == Some(ms) && final(report).status == old(report).status && final(report).sftp_error == old(report).sftp_error,
            ProbeOutcome::Failed(e) => final(report).status == SshHealthStatus::Degraded && final(report).sftp_round_trip_ms == old(report).sftp_round_trip_ms && text_is(final(report).sftp_error, bounded_error(sftp_failure_text(e@))),
            ProbeOutcome::TimedOut => final(report).status == SshHealthStatus::Degraded && final(report).sftp_round_trip_ms == old(report).sftp_round_trip_ms && text_is(final(report).sftp_error, "SFTP health probe exceeded 5000 ms"@),
        },
{
    match outcome {
        ProbeOutcome::Answered(ms) => {
            report.sftp_round_trip_ms = Some(ms);
        },
        ProbeOutcome::Failed(e) => {
            let mut text = String::from_str("SFTP health probe failed: ");
            push_str(&mut text, e.as_str());
            report.status = SshHealthStatus::Degraded;
            report.sftp_error = Some(bounded_ssh_health_error(text.as_str()));
        },
        ProbeOutcome::TimedOut => {
            report.status = SshHealthStatus::Degraded;
            report.sftp_error = Some(String::from_str("SFTP health probe exceeded 5000 ms"));
        },
    }
}

/// `f` is `report` closed against a terminal channel that is open or not.
pub open spec fn finished_from(report: SshHealthReport, terminal_channel_open: bool, f: SshHealthReport) -> bool {
    &&& f.session_id == report.session_id
    &&& f.runtime_id == report.runtime_id
    &&& f.checked_at_unix_ms == report.checked_at_unix_ms
    &&& f.backend == report.backend
    &&& f.authentication_method == report.authentication_method
    &&& f.sftp_probed == report.sftp_probed
    &&& f.transport_round_trip_ms == report.transport_round_trip_ms
    &&& f.channel_round_trip_ms == report.channel_round_trip_ms
    &&& f.sftp_round_trip_ms == report.sftp_round_trip_ms
    &&& f.transport_error == report.transport_error
    &&& f.channel_error == report.channel_error
    &&& f.sftp_error == report.sftp_error
    &&& if terminal_channel_open {
        &&& f.terminal_channel_open == report.terminal_channel_open
        &&& f.terminal_error == report.terminal_error
        &&& f.status == report.status
    } else {
        &&& !f.terminal_channel_open
        &&& (report.terminal_error is Some ==> f.terminal_error == report.terminal_error)
        &&& (report.terminal_error is None ==> text_is(f.terminal_error, terminal_closed_message()))
        &&& f.status == if report.status == SshHealthStatus::Healthy {
            SshHealthStatus::Degraded
        } else {
            report.status
        }
    }
}

/// Closes a report against the session as it is now: refused when the
/// session's runtime changed during the check; when its terminal channel
/// has closed meanwhile, marked so, and no longer healthy.
pub fn finish_health_report(
    report: SshHealthReport,
    current_runtime_id: Option<&str>,
    terminal_channel_open: bool,
) -> (r: Result<SshHealthReport, String>)
    ensures
        r is Ok <==> (current_runtime_id matches Some(id) && id@ == report.runtime_id@),
        r matches Err(e) ==> e@ == "SSH runtime 在健康检查期间已变化，请重试"@,
        r matches Ok(f) ==> finished_from(report, terminal_channel_open, f),
{
    let same = match current_runtime_id {
        Some(id) => str_eq(id, report.runtime_id.as_str()),
        None => false,
    };
    if !same {
        return Err(String::from_str("SSH runtime 在健康检查期间已变化，请重试"));
    }
    let mut report = report;
    if !terminal_channel_open {
        report.terminal_channel_open = false;
        if report.terminal_error.is_none() {
            report.terminal_error = Some(
                String::from_str("SSH 主终端 channel 已关闭或正在重连，交互输入不可用"),
            );
        }
        if report.status == SshHealthStatus::Healthy {
            report.status = SshHealthStatus::Degraded;
        }
    }
    Ok(report)
}

} // verus!
