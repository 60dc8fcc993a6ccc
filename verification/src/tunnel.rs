//! Tunnel bookkeeping: traffic and error metrics, the labels and keys of a
//! tunnel, validation of request text, and the ports to roll back after a
//! failed remote forward.
use vstd::prelude::*;
use crate::profile::{TunnelMode, TunnelSpec};
use crate::text::{
    decimal, is_ctrl, is_ws, push_char, push_str, str_eq, to_chars, u64_to_decimal,
    char_is_control, char_is_whitespace,
};

verus! {

pub const MAX_ACTIVE_TUNNELS: usize = 256;
pub const MAX_TUNNEL_CONNECTIONS: usize = 256;

/// Addition modulo 2^64, as an atomic `fetch_add` performs it.
pub open spec fn wrap_add(x: u64, y: u64) -> u64 {
    if x + y > u64::MAX {
        (x + y - 18446744073709551616) as u64
    } else {
        (x + y) as u64
    }
}

fn wrapping_add_u64(x: u64, y: u64) -> (r: u64)
    ensures
        r == wrap_add(x, y),
{
    if y > u64::MAX - x {
        y - (u64::MAX - x) - 1
    } else {
        x + y
    }
}

/// The current time in RFC 3339 form: `SystemTime::now()` since the Unix
/// epoch, made a `chrono::DateTime` by `DateTime::from_timestamp` and
/// written by `to_rfc3339`. `None` when the clock reads before the epoch or
/// beyond what chrono represents. Nothing more is stated of the result: it
/// depends on the clock.
#[verifier::external_body]
fn now_rfc3339() -> Option<String> {
    let elapsed = match std::time::SystemTime::now().duration_since(std::time::UNIX_EPOCH) {
        Ok(d) => d,
        Err(_) => return None,
    };
    let secs = match i64::try_from(elapsed.as_secs()) {
        Ok(s) => s,
        Err(_) => return None,
    };
    match chrono::DateTime::from_timestamp(secs, elapsed.subsec_nanos()) {
        Some(t) => Some(t.to_rfc3339()),
        None => None,
    }
}

/// The time of last activity after activity was recorded: a fresh reading
/// of the clock, or the earlier one when the clock could not be read.
pub open spec fn activity_after(before: Option<String>, after: Option<String>) -> bool {
    after is Some || after == before
}

/// Counters and the latest error of one tunnel.
#[derive(Clone, Debug, Default)]
pub struct TunnelMetrics {
    pub active_connections: u64,
    pub total_connections: u64,
    pub tcp_to_ssh_bytes: u64,
    pub ssh_to_tcp_bytes: u64,
    pub last_activity: Option<String>,
    pub last_error: Option<String>,
}

/// A point-in-time view of a tunnel and its metrics.
#[derive(Clone, Debug)]
pub struct TunnelStatus {
    pub spec: TunnelSpec,
    pub active_connections: u64,
    pub total_connections: u64,
    pub tcp_to_ssh_bytes: u64,
    pub ssh_to_tcp_bytes: u64,
    pub last_activity: Option<String>,
    pub last_error: Option<String>,
}

/// Two metrics agree on everything but the time of last activity.
pub open spec fn same_counters_and_error(a: TunnelMetrics, b: TunnelMetrics) -> bool {
    &&& a.active_connections == b.active_connections
    &&& a.total_connections == b.total_connections
    &&& a.tcp_to_ssh_bytes == b.tcp_to_ssh_bytes
    &&& a.ssh_to_tcp_bytes == b.ssh_to_tcp_bytes
    &&& a.last_error == b.last_error
}

/// `b` is `a` after a connection was accepted.
pub open spec fn opened_from(a: TunnelMetrics, b: TunnelMetrics) -> bool {
    &&& b.total_connections == wrap_add(a.total_connections, 1)
    &&& b.active_connections == wrap_add(a.active_connections, 1)
    &&& b.tcp_to_ssh_bytes == a.tcp_to_ssh_bytes
    &&& b.ssh_to_tcp_bytes == a.ssh_to_tcp_bytes
    &&& b.last_error == a.last_error
    &&& activity_after(a.last_activity, b.last_activity)
}

/// `b` is `a` after a connection ended.
pub open spec fn closed_from(a: TunnelMetrics, b: TunnelMetrics) -> bool {
    &&& b.active_connections == if a.active_connections > 0 {
        (a.active_connections - 1) as u64
    } else {
        0
    }
    &&& b.total_connections == a.total_connections
    &&& b.tcp_to_ssh_bytes == a.tcp_to_ssh_bytes
    &&& b.ssh_to_tcp_bytes == a.ssh_to_tcp_bytes
    &&& b.last_error == a.last_error
    &&& activity_after(a.last_activity, b.last_activity)
}

/// A connection that opens and then closes leaves the active count as it
/// was and counts once more in the total.
pub proof fn lemma_open_then_close(a: TunnelMetrics, b: TunnelMetrics, c: TunnelMetrics)
    requires
        a.active_connections < u64::MAX,
        opened_from(a, b),
        closed_from(b, c),
    ensures
        c.active_connections == a.active_connections,
        c.total_connections == wrap_add(a.total_connections, 1),
        c.tcp_to_ssh_bytes == a.tcp_to_ssh_bytes,
        c.ssh_to_tcp_bytes == a.ssh_to_tcp_bytes,
        c.last_error == a.last_error,
{
}

/// What recording `error` unless it is already the latest error does:
/// `changed` tells whether it was not.
pub open spec fn recorded_if_changed(a: TunnelMetrics, error: Seq<char>, b: TunnelMetrics, changed: bool) -> bool {
    &&& changed == !(a.last_error matches Some(e) && e@ == error)
    &&& b.last_error matches Some(e) && e@ == error
    &&& changed ==> activity_after(a.last_activity, b.last_activity)
    &&& !changed ==> b == a
    &&& same_counters_and_error(b, TunnelMetrics { last_error: b.last_error, ..a })
}

/// Recording the same error twice changes nothing the second time.
pub proof fn lemma_record_error_twice(
    a: TunnelMetrics,
    b: TunnelMetrics,
    c: TunnelMetrics,
    error: Seq<char>,
    first: bool,
    second: bool,
)
    requires
        recorded_if_changed(a, error, b, first),
        recorded_if_changed(b, error, c, second),
    ensures
        !second,
        c == b,
{
}

impl TunnelMetrics {
    /// Records activity at the time `at`.
    pub fn record_activity_at(&mut self, at: String)
        ensures
            final(self).last_activity == Some(at),
            same_counters_and_error(*final(self), *old(self)),
    {
        self.last_activity = Some(at);
    }

    /// Records activity now: the time of last activity becomes the clock's
    /// reading, and stays as it was when the clock cannot be read.
    pub fn touch(&mut self)
        ensures
            activity_after(old(self).last_activity, final(self).last_activity),
            same_counters_and_error(*final(self), *old(self)),
    {
        match now_rfc3339() {
            Some(at) => self.record_activity_at(at),
            None => {},
        }
    }

    /// A connection was accepted.
    pub fn connection_opened(&mut self)
        ensures
            opened_from(*old(self), *final(self)),
    {
        self.total_connections = wrapping_add_u64(self.total_connections, 1);
        self.active_connections = wrapping_add_u64(self.active_connections, 1);
        self.touch();
    }

    /// A connection ended; the active count never goes below zero.
    pub fn connection_closed(&mut self)
        ensures
            closed_from(*old(self), *final(self)),
    {
        self.active_connections = self.active_connections.saturating_sub(1);
        self.touch();
    }

    /// Bytes moved from the TCP side into SSH.
    pub fn add_tcp_to_ssh_bytes(&mut self, bytes: usize)
        ensures
            final(self).tcp_to_ssh_bytes == wrap_add(old(self).tcp_to_ssh_bytes, bytes as u64),
            final(self).ssh_to_tcp_bytes == old(self).ssh_to_tcp_bytes,
            final(self).active_connections == old(self).active_connections,
            final(self).total_connections == old(self).total_connections,
            final(self).last_error == old(self).last_error,
            activity_after(old(self).last_activity, final(self).last_activity),
    {
        self.add_tcp_to_ssh_bytes_u64(bytes as u64);
    }

    pub fn add_tcp_to_ssh_bytes_u64(&mut self, bytes: u64)
        ensures
            final(self).tcp_to_ssh_bytes == wrap_add(old(self).tcp_to_ssh_bytes, bytes),
            final(self).ssh_to_tcp_bytes == old(self).ssh_to_tcp_bytes,
            final(self).active_connections == old(self).active_connections,
            final(self).total_connections == old(self).total_connections,
            final(self).last_error == old(self).last_error,
            activity_after(old(self).last_activity, final(self).last_activity),
    {
        self.tcp_to_ssh_bytes = wrapping_add_u64(self.tcp_to_ssh_bytes, bytes);
        self.touch();
    }

    /// Bytes moved from SSH out to the TCP side.
    pub fn add_ssh_to_tcp_bytes(&mut self, bytes: usize)
        ensures
            final(self).ssh_to_tcp_bytes == wrap_add(old(self).ssh_to_tcp_bytes, bytes as u64),
            final(self).tcp_to_ssh_bytes == old(self).tcp_to_ssh_bytes,
            final(self).active_connections == old(self).active_connections,
            final(self).total_connections == old(self).total_connections,
            final(self).last_error == old(self).last_error,
            activity_after(old(self).last_activity, final(self).last_activity),
    {
        self.add_ssh_to_tcp_bytes_u64(bytes as u64);
    }

    pub fn add_ssh_to_tcp_bytes_u64(&mut self, bytes: u64)
        ensures
            final(self).ssh_to_tcp_bytes == wrap_add(old(self).ssh_to_tcp_bytes, bytes),
            final(self).tcp_to_ssh_bytes == old(self).tcp_to_ssh_bytes,
            final(self).active_connections == old(self).active_connections,
            final(self).total_connections == old(self).total_connections,
            final(self).last_error == old(self).last_error,
            activity_after(old(self).last_activity, final(self).last_activity),
    {
        self.ssh_to_tcp_bytes = wrapping_add_u64(self.ssh_to_tcp_bytes, bytes);
        self.touch();
    }

    /// Records `error` as the latest error.
    pub fn record_error(&mut self, error: &str)
        ensures
            final(self).last_error matches Some(e) && e@ == error@,
            final(self).active_connections == old(self).active_connections,
            final(self).total_connections == old(self).total_connections,
            final(self).tcp_to_ssh_bytes == old(self).tcp_to_ssh_bytes,
            final(self).ssh_to_tcp_bytes == old(self).ssh_to_tcp_bytes,
            activity_after(old(self).last_activity, final(self).last_activity),
    {
        self.last_error = Some(String::from_str(error));
        self.touch();
    }

    /// Records `error` unless it is already the latest error; tells whether
    /// it changed anything.
    pub fn record_error_if_changed(&mut self, error: &str) -> (changed: bool)
        ensures
            recorded_if_changed(*old(self), error@, *final(self), changed),
    {
        let same = match &self.last_error {
            Some(e) => str_eq(e.as_str(), error),
            None => false,
        };
        if same {
            return false;
        }
        self.last_error = Some(String::from_str(error));
        self.touch();
        true
    }

    /// Forgets the latest error.
    pub fn clear_error(&mut self)
        ensures
            final(self).last_error is None,
            final(self).active_connections == old(self).active_connections,
            final(self).total_connections == old(self).total_connections,
            final(self).tcp_to_ssh_bytes == old(self).tcp_to_ssh_bytes,
            final(self).ssh_to_tcp_bytes == old(self).ssh_to_tcp_bytes,
            activity_after(old(self).last_activity, final(self).last_activity),
    {
        self.last_error = None;
        self.touch();
    }

    /// Forgets the latest error when it starts with `prefix`; tells whether
    /// it did.
    pub fn clear_error_with_prefix(&mut self, prefix: &str) -> (cleared: bool)
        ensures
            cleared == (old(self).last_error matches Some(e) && e@.len() >= prefix@.len()
                && e@.subrange(0, prefix@.len() as int) == prefix@),
            cleared ==> final(self).last_error is None && activity_after(old(self).last_activity, final(self).last_activity)
                && final(self).active_connections == old(self).active_connections
                && final(self).total_connections == old(self).total_connections
                && final(self).tcp_to_ssh_bytes == old(self).tcp_to_ssh_bytes
                && final(self).ssh_to_tcp_bytes == old(self).ssh_to_tcp_bytes,
            !cleared ==> *final(self) == *old(self),
    {
        let matches_prefix = match &self.last_error {
            Some(e) => starts_with(e.as_str(), prefix),
            None => false,
        };
        if !matches_prefix {
            return false;
        }
        self.last_error = None;
        self.touch();
        true
    }

    /// The status of `spec` with the current metrics.
    pub fn snapshot(&self, spec: TunnelSpec) -> (s: TunnelStatus)
        ensures
            s.spec == spec,
            s.active_connections == self.active_connections,
            s.total_connections == self.total_connections,
            s.tcp_to_ssh_bytes == self.tcp_to_ssh_bytes,
            s.ssh_to_tcp_bytes == self.ssh_to_tcp_bytes,
            s.last_activity == self.last_activity,
            s.last_error == self.last_error,
    {
        TunnelStatus {
            spec,
            active_connections: self.active_connections,
            total_connections: self.total_connections,
            tcp_to_ssh_bytes: self.tcp_to_ssh_bytes,
            ssh_to_tcp_bytes: self.ssh_to_tcp_bytes,
            last_activity: clone_opt(&self.last_activity),
            last_error: clone_opt(&self.last_error),
        }
    }
}

fn clone_opt(o: &Option<String>) -> (r: Option<String>)
    ensures
        r == *o,
{
    match o {
        Some(s) => Some(s.clone()),
        None => None,
    }
}

/// `s` starts with `p`.
pub fn starts_with(s: &str, p: &str) -> (r: bool)
    ensures
        r == (s@.len() >= p@.len() && s@.subrange(0, p@.len() as int) == p@),
{
    let sv = to_chars(s);
    let pv = to_chars(p);
    if pv.len() > sv.len() {
        return false;
    }
    assert(pv@.subrange(0, pv@.len() as int) =~= pv@);
    crate::text::chars_eq(sv.as_slice(), 0, pv.len(), pv.as_slice(), 0, pv.len())
}

/// The ports of a forwarded-tcpip channel, when both fit in 16 bits.
pub fn forwarded_tcpip_ports(connected_port: u32, originator_port: u32) -> (r: Option<(u16, u16)>)
    ensures
        r == if connected_port <= u16::MAX && originator_port <= u16::MAX {
            Some((connected_port as u16, originator_port as u16))
        } else {
            None::<(u16, u16)>
        },
{
    if connected_port > 0xffff || originator_port > 0xffff {
        return None;
    }
    Some((connected_port as u16, originator_port as u16))
}

/// The registry key of a remote forward on `host:port`.
pub fn remote_forward_key(host: &str, port: u16) -> (r: String)
    ensures
        r@ == host@ + seq![':'] + decimal(port as nat),
{
    let mut s = String::from_str(host);
    push_char(&mut s, ':');
    let d = u64_to_decimal(port as u64);
    push_str(&mut s, d.as_str());
    s
}

/// The registry key of a remote forward on `port` of every address.
pub fn remote_forward_port_key(port: u16) -> (r: String)
    ensures
        r@ == seq!['*', ':'] + decimal(port as nat),
{
    let mut s = String::new();
    push_char(&mut s, '*');
    push_char(&mut s, ':');
    let d = u64_to_decimal(port as u64);
    push_str(&mut s, d.as_str());
    assert(s@ =~= seq!['*', ':'] + decimal(port as nat));
    s
}

/// The ports to cancel after a failed remote forward: the port the server
/// returned (if not 0), then the requested port (if not 0 and not already
/// listed), and port 0 when neither is known.
pub open spec fn rollback_ports(requested: u16, returned: Option<u16>) -> Seq<u16> {
    let first = match returned {
        Some(p) => if p != 0 {
            seq![p]
        } else {
            seq![]
        },
        None => seq![],
    };
    let both = if requested != 0 && !first.contains(requested) {
        first.push(requested)
    } else {
        first
    };
    if both.len() == 0 {
        seq![0u16]
    } else {
        both
    }
}

pub fn remote_forward_rollback_ports(requested_port: u16, returned_port: Option<u16>) -> (r: Vec<u16>)
    ensures
        r@ == rollback_ports(requested_port, returned_port),
{
    let mut ports: Vec<u16> = Vec::new();
    if let Some(p) = returned_port {
        if p != 0 {
            ports.push(p);
        }
    }
    let already = ports.len() == 1 && ports[0] == requested_port;
    proof {
        if ports@.len() == 1 {
            assert(ports@.contains(requested_port) <==> ports@[0] == requested_port);
        } else {
            assert(!ports@.contains(requested_port));
        }
    }
    if requested_port != 0 && !already {
        ports.push(requested_port);
    }
    if ports.len() == 0 {
        ports.push(0);
    }
    assert(ports@ =~= rollback_ports(requested_port, returned_port));
    ports
}

/// The default label of a tunnel, cut to `max_characters` characters.
pub open spec fn tunnel_label_text(
    mode: TunnelMode,
    bind_host: Seq<char>,
    bind_port: u16,
    target_host: Seq<char>,
    target_port: u16,
) -> Seq<char> {
    let bind = bind_host + seq![':'] + decimal(bind_port as nat);
    let target = target_host + seq![':'] + decimal(target_port as nat);
    match mode {
        TunnelMode::Local => bind + " -> "@ + target,
        TunnelMode::Dynamic => "SOCKS5 "@ + bind,
        TunnelMode::Remote => "remote "@ + bind + " -> "@ + target,
    }
}

pub open spec fn take_chars(s: Seq<char>, n: int) -> Seq<char> {
    if s.len() <= n {
        s
    } else {
        s.subrange(0, n)
    }
}

/// The default label of a tunnel, cut to at most `max_characters`
/// characters.
pub fn tunnel_label(
    mode: TunnelMode,
    bind_host: &str,
    bind_port: u16,
    target_host: &str,
    target_port: u16,
    max_characters: usize,
) -> (r: String)
    ensures
        r@ == take_chars(
            tunnel_label_text(mode, bind_host@, bind_port, target_host@, target_port),
            max_characters as int,
        ),
{
    let mut bind = String::from_str(bind_host);
    push_char(&mut bind, ':');
    let bp = u64_to_decimal(bind_port as u64);
    push_str(&mut bind, bp.as_str());
    let mut target = String::from_str(target_host);
    push_char(&mut target, ':');
    let tp = u64_to_decimal(target_port as u64);
    push_str(&mut target, tp.as_str());
    let mut label = String::new();
    match mode {
        TunnelMode::Local => {
            push_str(&mut label, bind.as_str());
            push_str(&mut label, " -> ");
            push_str(&mut label, target.as_str());
        },
        TunnelMode::Dynamic => {
            push_str(&mut label, "SOCKS5 ");
            push_str(&mut label, bind.as_str());
        },
        TunnelMode::Remote => {
            push_str(&mut label, "remote ");
            push_str(&mut label, bind.as_str());
            push_str(&mut label, " -> ");
            push_str(&mut label, target.as_str());
        },
    }
    assert(label@ =~= tunnel_label_text(mode, bind_host@, bind_port, target_host@, target_port));
    let v = to_chars(label.as_str());
    if v.len() <= max_characters {
        return label;
    }
    crate::text::string_of(v.as_slice(), 0, max_characters)
}

/// What is wrong with a piece of request text, judged character by
/// character from `i` on: the first character past the limit, a control
/// character, or (when rejected) white space.
pub enum TextProblem {
    TooLong,
    Control,
    Whitespace,
}

pub open spec fn text_problem_from(value: Seq<char>, max: int, reject_ws: bool, i: int) -> Option<TextProblem>
    decreases value.len() - i,
{
    if i < 0 || i >= value.len() {
        None
    } else if i + 1 > max {
        Some(TextProblem::TooLong)
    } else if is_ctrl(value[i]) {
        Some(TextProblem::Control)
    } else if reject_ws && is_ws(value[i]) {
        Some(TextProblem::Whitespace)
    } else {
        text_problem_from(value, max, reject_ws, i + 1)
    }
}

/// The error message of `validate_tunnel_request_text`.
pub open spec fn text_error_message(label: Seq<char>, value: Seq<char>, max: nat, allow_empty: bool, reject_ws: bool) -> Option<Seq<char>> {
    if !allow_empty && value.len() == 0 {
        Some("tunnel "@ + label + " must not be empty"@)
    } else {
        match text_problem_from(value, max as int, reject_ws, 0) {
            Some(TextProblem::TooLong) => Some("tunnel "@ + label + " exceeds "@ + decimal(max) + " Unicode characters"@),
            Some(TextProblem::Control) => Some("tunnel "@ + label + " must not contain control characters"@),
            Some(TextProblem::Whitespace) => Some("tunnel "@ + label + " must not contain whitespace"@),
            None => None,
        }
    }
}

fn label_message(label: &str, before: &str, after: &str) -> (r: String)
    ensures
        r@ == before@ + label@ + after@,
{
    let mut s = String::from_str(before);
    push_str(&mut s, label);
    push_str(&mut s, after);
    s
}

/// Checks one piece of tunnel request text: non-empty unless allowed, at
/// most `max_characters` characters, no control characters, and no white
/// space when `reject_whitespace` is set.
pub fn validate_tunnel_request_text(
    label: &str,
    value: &str,
    max_characters: usize,
    allow_empty: bool,
    reject_whitespace: bool,
) -> (r: Result<(), String>)
    ensures
        match text_error_message(label@, value@, max_characters as nat, allow_empty, reject_whitespace) {
            Some(m) => r matches Err(e) && e@ == m,
            None => r is Ok,
        },
{
    let v = to_chars(value);
    if !allow_empty && v.len() == 0 {
        return Err(label_message(label, "tunnel ", " must not be empty"));
    }
    let mut i: usize = 0;
    while i < v.len()
        invariant
            v@ == value@,
            i <= v@.len(),
            text_problem_from(value@, max_characters as int, reject_whitespace, 0) == text_problem_from(value@, max_characters as int, reject_whitespace, i as int),
        decreases v@.len() - i,
    {
        if i >= max_characters {
            let mut e = String::from_str("tunnel ");
            push_str(&mut e, label);
            push_str(&mut e, " exceeds ");
            let d = u64_to_decimal(max_characters as u64);
            push_str(&mut e, d.as_str());
            push_str(&mut e, " Unicode characters");
            return Err(e);
        }
        if char_is_control(v[i]) {
            return Err(label_message(label, "tunnel ", " must not contain control characters"));
        }
        if reject_whitespace && char_is_whitespace(v[i]) {
            return Err(label_message(label, "tunnel ", " must not contain whitespace"));
        }
        i = i + 1;
    }
    Ok(())
}

} // verus!
