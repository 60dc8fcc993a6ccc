//! Reaching an SSH target, directly or through a chain of jump hosts: the
//! checks on the target's endpoint, the alias its host key is trusted
//! under, and the error each failed step of the chain reports.
use vstd::prelude::*;
use crate::jump_hosts::hop_label;
use crate::text::{decimal, push_str, to_chars, trim, trim_string, u128_to_decimal, u64_to_decimal};

verus! {

/// The target's host without surrounding white space; refused when blank
/// or when the port is zero.
pub fn ssh_target_endpoint(host: &str, port: u16) -> (r: Result<String, String>)
    ensures
        trim(host@).len() == 0 ==> (r matches Err(e) && e@ == "SSH 主机不能为空"@),
        trim(host@).len() > 0 && port == 0 ==> (r matches Err(e) && e@ == "SSH 端口必须在 1-65535 之间"@),
        trim(host@).len() > 0 && port != 0 ==> (r matches Ok(h) && h@ == trim(host@)),
{
    let h = trim_string(host);
    if to_chars(h.as_str()).len() == 0 {
        return Err(String::from_str("SSH 主机不能为空"));
    }
    if port == 0 {
        return Err(String::from_str("SSH 端口必须在 1-65535 之间"));
    }
    Ok(h)
}

/// The jump-host transport needs at least one jump: with `jump_channel`
/// set and no jumps it is refused.
pub fn ssh_target_transport_check(jump_count: usize, jump_channel: bool) -> (r: Result<(), String>)
    ensures
        r is Err <==> (jump_count == 0 && jump_channel),
        r matches Err(e) ==> e@ == "SSH Jump Host transport requires at least one jump"@,
{
    if jump_count == 0 && jump_channel {
        return Err(String::from_str("SSH Jump Host transport requires at least one jump"));
    }
    Ok(())
}

/// The alias the target's host key is trusted under: the policy's alias
/// unless it is blank, else the profile's id.
pub fn target_host_key_alias(policy_alias: Option<&str>, profile_id: &str) -> (r: String)
    ensures
        r@ == match policy_alias {
            Some(a) => if trim(a@).len() > 0 {
                a@
            } else {
                profile_id@
            },
            None => profile_id@,
        },
{
    match policy_alias {
        Some(a) => {
            let t = trim_string(a);
            if to_chars(t.as_str()).len() > 0 {
                String::from_str(a)
            } else {
                String::from_str(profile_id)
            }
        },
        None => String::from_str(profile_id),
    }
}

/// How one step of reaching a host failed.
#[derive(Clone, Debug, PartialEq, Eq)]
pub enum ConnectStepFailure {
    /// Opening the forwarding channel through the previous hop failed.
    DirectTcpipFailed(String),
    /// Opening the forwarding channel took too long; closing the previous
    /// hop may have left a warning.
    DirectTcpipTimedOut { timeout_ms: u128, cleanup_warning: Option<String> },
    /// The connection took too long.
    ConnectTimedOut,
    /// The transport could not be set up; its error says why.
    TransportFailed(String),
    /// The handshake failed; the host key check may have said why.
    HandshakeFailed { host_key_error: Option<String>, error: String },
    /// Authentication failed.
    AuthenticationFailed(String),
    /// The host key could not be recorded.
    HostKeyFailed(String),
}

/// `; <warning>`, or nothing.
pub open spec fn warning_suffix(w: Option<String>) -> Seq<char> {
    match w {
        Some(w) => "; "@ + w@,
        None => Seq::empty(),
    }
}

/// `host:port`.
pub open spec fn endpoint_text(host: Seq<char>, port: u16) -> Seq<char> {
    host + ":"@ + decimal(port as nat)
}

/// The error of hop `index` (counted from zero) at `host:port`.
pub open spec fn jump_step_error(index: nat, host: Seq<char>, port: u16, failure: ConnectStepFailure) -> Seq<char> {
    match failure {
        ConnectStepFailure::DirectTcpipFailed(e) => hop_label(index) + "打开 direct-tcpip 到 "@ + endpoint_text(
            host,
            port,
        ) + " 失败: "@ + e@,
        ConnectStepFailure::DirectTcpipTimedOut { timeout_ms, cleanup_warning } => hop_label(index)
            + "打开 direct-tcpip 到 "@ + endpoint_text(host, port) + " 超时（"@ + decimal(timeout_ms as nat)
            + " ms）"@ + warning_suffix(cleanup_warning),
        ConnectStepFailure::ConnectTimedOut => hop_label(index) + "连接超时: "@ + endpoint_text(host, port),
        ConnectStepFailure::TransportFailed(e) => e@,
        ConnectStepFailure::HandshakeFailed { host_key_error, error } => hop_label(index) + " SSH 握手失败 "@
            + endpoint_text(host, port) + ": "@ + match host_key_error {
            Some(k) => k@,
            None => error@,
        },
        ConnectStepFailure::AuthenticationFailed(e) => hop_label(index) + "认证失败 "@ + endpoint_text(host, port)
            + ": "@ + e@,
        ConnectStepFailure::HostKeyFailed(e) => hop_label(index) + " host key 处理失败 "@ + endpoint_text(host, port)
            + ": "@ + e@,
    }
}

fn push_endpoint(s: &mut String, host: &str, port: u16)
    ensures
        final(s)@ == old(s)@ + endpoint_text(host@, port),
{
    push_str(s, host);
    push_str(s, ":");
    let p = u64_to_decimal(port as u64);
    push_str(s, p.as_str());
}

fn push_warning(s: &mut String, w: &Option<String>)
    ensures
        final(s)@ == old(s)@ + warning_suffix(*w),
{
    match w {
        Some(w) => {
            push_str(s, "; ");
            push_str(s, w.as_str());
        },
        None => {
            assert(s@ + Seq::<char>::empty() =~= s@);
        },
    }
}

/// The error that a failed step at hop `index` of a jump chain reports;
/// a transport error is reported as it is.
pub fn jump_chain_step_error(index: usize, host: &str, port: u16, failure: &ConnectStepFailure) -> (r: String)
    requires
        index < usize::MAX,
    ensures
        r@ == jump_step_error(index as nat, host@, port, *failure),
{
    if let ConnectStepFailure::TransportFailed(e) = failure {
        return e.clone();
    }
    let mut r = String::from_str("Jump Host 第 ");
    let n = u64_to_decimal(index as u64 + 1);
    push_str(&mut r, n.as_str());
    push_str(&mut r, " 跳");
    match failure {
        ConnectStepFailure::DirectTcpipFailed(e) => {
            push_str(&mut r, "打开 direct-tcpip 到 ");
            push_endpoint(&mut r, host, port);
            push_str(&mut r, " 失败: ");
            push_str(&mut r, e.as_str());
        },
        ConnectStepFailure::DirectTcpipTimedOut { timeout_ms, cleanup_warning } => {
            push_str(&mut r, "打开 direct-tcpip 到 ");
            push_endpoint(&mut r, host, port);
            push_str(&mut r, " 超时（");
            let t = u128_to_decimal(*timeout_ms);
            push_str(&mut r, t.as_str());
            push_str(&mut r, " ms）");
            push_warning(&mut r, cleanup_warning);
        },
        ConnectStepFailure::ConnectTimedOut => {
            push_str(&mut r, "连接超时: ");
            push_endpoint(&mut r, host, port);
        },
        ConnectStepFailure::TransportFailed(_) => {},
        ConnectStepFailure::HandshakeFailed { host_key_error, error } => {
            push_str(&mut r, " SSH 握手失败 ");
            push_endpoint(&mut r, host, port);
            push_str(&mut r, ": ");
            match host_key_error {
                Some(k) => push_str(&mut r, k.as_str()),
                None => push_str(&mut r, error.as_str()),
            }
        },
        ConnectStepFailure::AuthenticationFailed(e) => {
            push_str(&mut r, "认证失败 ");
            push_endpoint(&mut r, host, port);
            push_str(&mut r, ": ");
            push_str(&mut r, e.as_str());
        },
        ConnectStepFailure::HostKeyFailed(e) => {
            push_str(&mut r, " host key 处理失败 ");
            push_endpoint(&mut r, host, port);
            push_str(&mut r, ": ");
            push_str(&mut r, e.as_str());
        },
    }
    r
}

/// The error of the last step, reaching the target itself at `host:port`,
/// directly or (`via_jump`) through the chain. A failure that the target
/// step does not have (authentication, host key) reports its own text.
pub open spec fn target_step_error(via_jump: bool, host: Seq<char>, port: u16, failure: ConnectStepFailure) -> Seq<char> {
    match failure {
        ConnectStepFailure::DirectTcpipFailed(e) => "Jump Host 打开 direct-tcpip 到 "@ + endpoint_text(host, port)
            + " 失败: "@ + e@,
        ConnectStepFailure::DirectTcpipTimedOut { timeout_ms, cleanup_warning } => "Jump Host 打开 direct-tcpip 到 "@
            + endpoint_text(host, port) + " 超时（"@ + decimal(timeout_ms as nat) + " ms）"@ + warning_suffix(
            cleanup_warning,
        ),
        ConnectStepFailure::ConnectTimedOut => if via_jump {
            "SSH 经 Jump Host 连接超时: "@ + endpoint_text(host, port)
        } else {
            "SSH 连接超时: "@ + endpoint_text(host, port)
        },
        ConnectStepFailure::HandshakeFailed { host_key_error, error } => match host_key_error {
            Some(k) => k@,
            None => if via_jump {
                "SSH 经 Jump Host 握手失败: "@ + error@
            } else {
                "SSH 握手失败: "@ + error@
            },
        },
        ConnectStepFailure::TransportFailed(e) => e@,
        ConnectStepFailure::AuthenticationFailed(e) => e@,
        ConnectStepFailure::HostKeyFailed(e) => e@,
    }
}

pub fn ssh_target_step_error(via_jump: bool, host: &str, port: u16, failure: &ConnectStepFailure) -> (r: String)
    ensures
        r@ == target_step_error(via_jump, host@, port, *failure),
{
    match failure {
        ConnectStepFailure::DirectTcpipFailed(e) => {
            let mut r = String::from_str("Jump Host 打开 direct-tcpip 到 ");
            push_endpoint(&mut r, host, port);
            push_str(&mut r, " 失败: ");
            push_str(&mut r, e.as_str());
            r
        },
        ConnectStepFailure::DirectTcpipTimedOut { timeout_ms, cleanup_warning } => {
            let mut r = String::from_str("Jump Host 打开 direct-tcpip 到 ");
            push_endpoint(&mut r, host, port);
            push_str(&mut r, " 超时（");
            let t = u128_to_decimal(*timeout_ms);
            push_str(&mut r, t.as_str());
            push_str(&mut r, " ms）");
            push_warning(&mut r, cleanup_warning);
            r
        },
        ConnectStepFailure::ConnectTimedOut => {
            let mut r = if via_jump {
                String::from_str("SSH 经 Jump Host 连接超时: ")
            } else {
                String::from_str("SSH 连接超时: ")
            };
            push_endpoint(&mut r, host, port);
            r
        },
        ConnectStepFailure::HandshakeFailed { host_key_error, error } => match host_key_error {
            Some(k) => k.clone(),
            None => {
                let mut r = if via_jump {
                    String::from_str("SSH 经 Jump Host 握手失败: ")
                } else {
                    String::from_str("SSH 握手失败: ")
                };
                push_str(&mut r, error.as_str());
                r
            },
        },
        ConnectStepFailure::TransportFailed(e) => e.clone(),
        ConnectStepFailure::AuthenticationFailed(e) => e.clone(),
        ConnectStepFailure::HostKeyFailed(e) => e.clone(),
    }
}

} // verus!
