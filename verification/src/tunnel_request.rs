//! Checking and normalizing a request to create a tunnel or a host route.
//!
//! Three things come from outside the checks: the limits of the store
//! format, the route rules in their normalized form with the verdict on
//! them, and whether the bind host is a loopback IP address. The caller
//! works those out with the store format's own functions and the standard
//! library's address parser and hands them in.
use vstd::prelude::*;
use crate::profile::{TunnelEgress, TunnelMode, TunnelRouteRule};
use crate::text::{
    chars_eq_ignore_ascii_case, decimal, eq_ignore_ascii_case, has_ctrl, opt_view, push_str,
    str_has_control, to_chars, trim, trim_string, u64_to_decimal,
};
use crate::tunnel::{text_error_message, validate_tunnel_request_text};

verus! {

/// A request to create a tunnel.
#[derive(Debug)]
pub struct CreateTunnelRequest {
    pub session_id: String,
    pub egress: TunnelEgress,
    pub mode: TunnelMode,
    pub bind_host: String,
    pub bind_port: u16,
    pub target_host: String,
    pub target_port: u16,
    pub route_rules: Vec<TunnelRouteRule>,
    pub allow_remote_bind: bool,
    pub label: Option<String>,
}

/// A request to create a route from this host.
#[derive(Debug)]
pub struct CreateHostRouteRequest {
    pub mode: TunnelMode,
    pub bind_host: String,
    pub bind_port: u16,
    pub target_host: String,
    pub target_port: u16,
    pub route_rules: Vec<TunnelRouteRule>,
    pub allow_remote_bind: bool,
    pub label: Option<String>,
}

/// How long the texts of a request may be, and how many route rules it may
/// carry.
#[derive(Clone, Copy, Debug)]
pub struct TunnelRequestLimits {
    pub max_route_rules: usize,
    pub max_session_id_characters: usize,
    pub max_host_characters: usize,
    pub max_label_characters: usize,
}

/// The position of the first route rule whose host holds a control
/// character.
pub open spec fn first_control_rule(rules: Seq<TunnelRouteRule>) -> Option<int>
    decreases rules.len(),
{
    if rules.len() == 0 {
        None
    } else {
        match first_control_rule(rules.drop_last()) {
            Some(i) => Some(i),
            None => if has_ctrl(rules.last().host@) {
                Some(rules.len() - 1)
            } else {
                None
            },
        }
    }
}

/// The optional text trimmed, and none when nothing is left.
pub open spec fn trimmed_label(o: Option<String>) -> Option<Seq<char>> {
    match o {
        Some(s) => if trim(s@).len() > 0 {
            Some(trim(s@))
        } else {
            None
        },
        None => None,
    }
}

/// The bind host is `localhost` in any case, or a loopback IP address.
pub open spec fn loopback_bind_host(host: Seq<char>, is_loopback_ip: bool) -> bool {
    eq_ignore_ascii_case(host, "localhost"@) || is_loopback_ip
}

/// Why a request is refused, checked in order; none when it is accepted.
pub open spec fn tunnel_request_problem(
    r: CreateTunnelRequest,
    limits: TunnelRequestLimits,
    normalized_rules: Seq<TunnelRouteRule>,
    rules_verdict: Result<(), Seq<char>>,
    bind_host_is_loopback_ip: bool,
) -> Option<Seq<char>> {
    let session_id = trim(r.session_id@);
    let bind_host = trim(r.bind_host@);
    let target_host = if r.mode == TunnelMode::Dynamic {
        seq![]
    } else {
        trim(r.target_host@)
    };
    if has_ctrl(r.session_id@) {
        Some("tunnel session id must not contain control characters"@)
    } else if has_ctrl(r.bind_host@) {
        Some("tunnel bind host must not contain control characters"@)
    } else if has_ctrl(r.target_host@) {
        Some("tunnel target host must not contain control characters"@)
    } else if r.label matches Some(l) && has_ctrl(l@) {
        Some("tunnel label must not contain control characters"@)
    } else if r.route_rules@.len() > limits.max_route_rules {
        Some("tunnel route rule count exceeds "@ + decimal(limits.max_route_rules as nat))
    } else if first_control_rule(r.route_rules@) is Some {
        Some(
            "tunnel route rule "@ + decimal((first_control_rule(r.route_rules@).unwrap() + 1) as nat)
                + " host must not contain control characters"@,
        )
    } else if r.mode == TunnelMode::Dynamic && rules_verdict is Err {
        Some(rules_verdict->Err_0)
    } else if r.mode != TunnelMode::Dynamic && normalized_rules.len() > 0 {
        Some("tunnel route rules are only supported by dynamic mode"@)
    } else if r.egress == TunnelEgress::Ssh && r.allow_remote_bind {
        Some("allowRemoteBind is only valid for PortMate host egress"@)
    } else if r.egress == TunnelEgress::PortmateHost && r.mode == TunnelMode::Remote {
        Some("PortMate host egress supports local TCP and dynamic SOCKS5 modes only"@)
    } else if r.egress == TunnelEgress::PortmateHost && r.mode == TunnelMode::Dynamic
        && normalized_rules.len() == 0 {
        Some("PortMate host SOCKS5 proxies require at least one route rule"@)
    } else if r.egress == TunnelEgress::PortmateHost && !r.allow_remote_bind && !loopback_bind_host(
        bind_host,
        bind_host_is_loopback_ip,
    ) {
        Some("PortMate host egress requires a loopback bind host unless allowRemoteBind is true"@)
    } else if text_error_message(
        "session id"@,
        session_id,
        limits.max_session_id_characters as nat,
        false,
        false,
    ) is Some {
        text_error_message("session id"@, session_id, limits.max_session_id_characters as nat, false, false)
    } else if text_error_message(
        "bind host"@,
        bind_host,
        limits.max_host_characters as nat,
        r.mode == TunnelMode::Remote,
        true,
    ) is Some {
        text_error_message(
            "bind host"@,
            bind_host,
            limits.max_host_characters as nat,
            r.mode == TunnelMode::Remote,
            true,
        )
    } else if trimmed_label(r.label) matches Some(l) && text_error_message(
        "label"@,
        l,
        limits.max_label_characters as nat,
        false,
        false,
    ) is Some {
        text_error_message("label"@, trimmed_label(r.label).unwrap(), limits.max_label_characters as nat, false, false)
    } else if r.mode != TunnelMode::Dynamic && (target_host.len() == 0 || r.target_port == 0) {
        Some("local and remote tunnels require a target host and port"@)
    } else if r.mode != TunnelMode::Dynamic && text_error_message(
        "target host"@,
        target_host,
        limits.max_host_characters as nat,
        false,
        true,
    ) is Some {
        text_error_message("target host"@, target_host, limits.max_host_characters as nat, false, true)
    } else {
        None
    }
}

/// The accepted request in normalized form: texts trimmed, an empty label
/// dropped, the route rules normalized, and no target for a dynamic tunnel.
pub open spec fn normalized_tunnel_request(
    r: CreateTunnelRequest,
    normalized_rules: Seq<TunnelRouteRule>,
    n: CreateTunnelRequest,
) -> bool {
    &&& n.session_id@ == trim(r.session_id@)
    &&& n.egress == r.egress
    &&& n.mode == r.mode
    &&& n.bind_host@ == trim(r.bind_host@)
    &&& n.bind_port == r.bind_port
    &&& n.target_host@ == (if r.mode == TunnelMode::Dynamic {
        seq![]
    } else {
        trim(r.target_host@)
    })
    &&& n.target_port == (if r.mode == TunnelMode::Dynamic {
        0
    } else {
        r.target_port
    })
    &&& n.route_rules@ == normalized_rules
    &&& n.allow_remote_bind == r.allow_remote_bind
    &&& opt_view(n.label) == trimmed_label(r.label)
}

fn first_control_rule_exec(rules: &Vec<TunnelRouteRule>) -> (r: Option<usize>)
    ensures
        match first_control_rule(rules@) {
            Some(i) => r == Some(i as usize),
            None => r is None,
        },
        r matches Some(i) ==> i < rules@.len() && first_control_rule(rules@) == Some(i as int),
{
    let mut i: usize = 0;
    while i < rules.len()
        invariant
            i <= rules@.len(),
            first_control_rule(rules@.take(i as int)) is None,
        decreases rules@.len() - i,
    {
        proof {
            assert(rules@.take(i + 1).drop_last() =~= rules@.take(i as int));
        }
        if str_has_control(rules[i].host.as_str()) {
            proof {
                lemma_first_control_prefix(rules@, i as int);
            }
            return Some(i);
        }
        i = i + 1;
    }
    assert(rules@.take(rules@.len() as int) =~= rules@);
    None
}

proof fn lemma_first_control_prefix(rules: Seq<TunnelRouteRule>, i: int)
    requires
        0 <= i < rules.len(),
        first_control_rule(rules.take(i)) is None,
        has_ctrl(rules[i].host@),
    ensures
        first_control_rule(rules) == Some(i),
    decreases rules.len(),
{
    if i < rules.len() - 1 {
        let front = rules.drop_last();
        assert(front.take(i) =~= rules.take(i));
        assert(front[i] == rules[i]);
        lemma_first_control_prefix(front, i);
    } else {
        assert(rules.drop_last() =~= rules.take(i));
    }
}

fn is_localhost(host: &str) -> (r: bool)
    ensures
        r == eq_ignore_ascii_case(host@, "localhost"@),
{
    let v = to_chars(host);
    let l = to_chars("localhost");
    proof {
        assert(v@.subrange(0, v@.len() as int) =~= host@);
        assert(l@.subrange(0, l@.len() as int) =~= "localhost"@);
    }
    chars_eq_ignore_ascii_case(v.as_slice(), 0, v.len(), l.as_slice(), 0, l.len())
}

fn prefixed_number(before: &str, n: usize, after: &str) -> (r: String)
    ensures
        r@ == before@ + decimal(n as nat) + after@,
{
    let mut s = String::from_str(before);
    let d = u64_to_decimal(n as u64);
    push_str(&mut s, d.as_str());
    push_str(&mut s, after);
    s
}

/// Checks a tunnel request and returns it normalized (see
/// `tunnel_request_problem` for the checks, in order).
/// `normalized_route_rules` are the request's route rules in normalized
/// form and `route_rules_verdict` the store format's verdict on them;
/// `bind_host_is_loopback_ip` tells whether the trimmed bind host is a
/// loopback IP address.
pub fn normalize_tunnel_request(
    request: CreateTunnelRequest,
    limits: TunnelRequestLimits,
    normalized_route_rules: Vec<TunnelRouteRule>,
    route_rules_verdict: Result<(), String>,
    bind_host_is_loopback_ip: bool,
) -> (r: Result<CreateTunnelRequest, String>)
    ensures
        match tunnel_request_problem(
            request,
            limits,
            normalized_route_rules@,
            match route_rules_verdict {
                Ok(()) => Ok(()),
                Err(e) => Err(e@),
            },
            bind_host_is_loopback_ip,
        ) {
            Some(p) => r matches Err(e) && e@ == p,
            None => r matches Ok(n) && normalized_tunnel_request(request, normalized_route_rules@, n),
        },
{
    if str_has_control(request.session_id.as_str()) {
        return Err(String::from_str("tunnel session id must not contain control characters"));
    }
    if str_has_control(request.bind_host.as_str()) {
        return Err(String::from_str("tunnel bind host must not contain control characters"));
    }
    if str_has_control(request.target_host.as_str()) {
        return Err(String::from_str("tunnel target host must not contain control characters"));
    }
    if let Some(label) = &request.label {
        if str_has_control(label.as_str()) {
            return Err(String::from_str("tunnel label must not contain control characters"));
        }
    }
    if request.route_rules.len() > limits.max_route_rules {
        proof {
            reveal_strlit("");
        }
        let e = prefixed_number("tunnel route rule count exceeds ", limits.max_route_rules, "");
        assert(e@ =~= "tunnel route rule count exceeds "@ + decimal(limits.max_route_rules as nat));
        return Err(e);
    }
    if let Some(i) = first_control_rule_exec(&request.route_rules) {
        let e = prefixed_number("tunnel route rule ", i + 1, " host must not contain control characters");
        assert(first_control_rule(request.route_rules@).unwrap() + 1 == (i + 1) as nat);
        return Err(e);
    }
    let session_id = trim_string(request.session_id.as_str());
    let bind_host = trim_string(request.bind_host.as_str());
    let label = match &request.label {
        Some(l) => {
            let t = trim_string(l.as_str());
            if t.unicode_len() > 0 {
                Some(t)
            } else {
                None
            }
        },
        None => None,
    };
    let dynamic = request.mode == TunnelMode::Dynamic;
    let (target_host, target_port) = if dynamic {
        (String::new(), 0u16)
    } else {
        (trim_string(request.target_host.as_str()), request.target_port)
    };
    if dynamic {
        if let Err(e) = route_rules_verdict {
            return Err(e);
        }
    } else if normalized_route_rules.len() > 0 {
        return Err(String::from_str("tunnel route rules are only supported by dynamic mode"));
    }
    match request.egress {
        TunnelEgress::Ssh => {
            if request.allow_remote_bind {
                return Err(String::from_str("allowRemoteBind is only valid for PortMate host egress"));
            }
        },
        TunnelEgress::PortmateHost => {
            if request.mode == TunnelMode::Remote {
                return Err(
                    String::from_str(
                        "PortMate host egress supports local TCP and dynamic SOCKS5 modes only",
                    ),
                );
            }
            if dynamic && normalized_route_rules.len() == 0 {
                return Err(
                    String::from_str("PortMate host SOCKS5 proxies require at least one route rule"),
                );
            }
            if !request.allow_remote_bind && !(is_localhost(bind_host.as_str()) || bind_host_is_loopback_ip) {
                return Err(
                    String::from_str(
                        "PortMate host egress requires a loopback bind host unless allowRemoteBind is true",
                    ),
                );
            }
        },
    }
    validate_tunnel_request_text("session id", session_id.as_str(), limits.max_session_id_characters, false, false)?;
    validate_tunnel_request_text(
        "bind host",
        bind_host.as_str(),
        limits.max_host_characters,
        request.mode == TunnelMode::Remote,
        true,
    )?;
    if let Some(l) = &label {
        validate_tunnel_request_text("label", l.as_str(), limits.max_label_characters, false, false)?;
    }
    if !dynamic {
        if target_host.unicode_len() == 0 || target_port == 0 {
            return Err(String::from_str("local and remote tunnels require a target host and port"));
        }
        validate_tunnel_request_text("target host", target_host.as_str(), limits.max_host_characters, false, true)?;
    }
    Ok(CreateTunnelRequest {
        session_id,
        egress: request.egress,
        mode: request.mode,
        bind_host,
        bind_port: request.bind_port,
        target_host,
        target_port,
        route_rules: normalized_route_rules,
        allow_remote_bind: request.allow_remote_bind,
        label,
    })
}

/// Checks a host route request as a tunnel request of this host (session
/// `portmate-host`, egress from this host) and returns it normalized.
pub fn normalize_host_route_request(
    request: CreateHostRouteRequest,
    limits: TunnelRequestLimits,
    normalized_route_rules: Vec<TunnelRouteRule>,
    route_rules_verdict: Result<(), String>,
    bind_host_is_loopback_ip: bool,
) -> (r: Result<CreateHostRouteRequest, String>)
    ensures
        match tunnel_request_problem(
            host_route_as_tunnel(request),
            limits,
            normalized_route_rules@,
            match route_rules_verdict {
                Ok(()) => Ok(()),
                Err(e) => Err(e@),
            },
            bind_host_is_loopback_ip,
        ) {
            Some(p) => r matches Err(e) && e@ == p,
            None => r matches Ok(n) && normalized_host_route(request, normalized_route_rules@, n),
        },
{
    let ghost as_tunnel = host_route_as_tunnel(request);
    let tunnel = CreateTunnelRequest {
        session_id: String::from_str("portmate-host"),
        egress: TunnelEgress::PortmateHost,
        mode: request.mode,
        bind_host: request.bind_host,
        bind_port: request.bind_port,
        target_host: request.target_host,
        target_port: request.target_port,
        route_rules: request.route_rules,
        allow_remote_bind: request.allow_remote_bind,
        label: request.label,
    };
    proof {
        reveal_strlit("portmate-host");
        assert(tunnel.session_id@ == as_tunnel.session_id@);
    }
    let n = normalize_tunnel_request(
        tunnel,
        limits,
        normalized_route_rules,
        route_rules_verdict,
        bind_host_is_loopback_ip,
    )?;
    Ok(CreateHostRouteRequest {
        mode: n.mode,
        bind_host: n.bind_host,
        bind_port: n.bind_port,
        target_host: n.target_host,
        target_port: n.target_port,
        route_rules: n.route_rules,
        allow_remote_bind: n.allow_remote_bind,
        label: n.label,
    })
}

/// A host route request as the tunnel request it is checked as.
pub open spec fn host_route_as_tunnel(r: CreateHostRouteRequest) -> CreateTunnelRequest {
    CreateTunnelRequest {
        session_id: host_session_id(),
        egress: TunnelEgress::PortmateHost,
        mode: r.mode,
        bind_host: r.bind_host,
        bind_port: r.bind_port,
        target_host: r.target_host,
        target_port: r.target_port,
        route_rules: r.route_rules,
        allow_remote_bind: r.allow_remote_bind,
        label: r.label,
    }
}

/// Some string reading `portmate-host`.
pub open spec fn host_session_id() -> String {
    choose|s: String| (#[trigger] s@) == "portmate-host"@
}

/// The accepted host route in normalized form.
pub open spec fn normalized_host_route(
    r: CreateHostRouteRequest,
    normalized_rules: Seq<TunnelRouteRule>,
    n: CreateHostRouteRequest,
) -> bool {
    &&& n.mode == r.mode
    &&& n.bind_host@ == trim(r.bind_host@)
    &&& n.bind_port == r.bind_port
    &&& n.target_host@ == (if r.mode == TunnelMode::Dynamic {
        seq![]
    } else {
        trim(r.target_host@)
    })
    &&& n.target_port == (if r.mode == TunnelMode::Dynamic {
        0
    } else {
        r.target_port
    })
    &&& n.route_rules@ == normalized_rules
    &&& n.allow_remote_bind == r.allow_remote_bind
    &&& opt_view(n.label) == trimmed_label(r.label)
}

} // verus!

verus! {

/// A loopback bind host is as good as `allowRemoteBind` for a request with
/// egress from this host: whether the bind host is `localhost` in any case
/// or a loopback IP address, the verdict is the one the same request would
/// get with `allowRemoteBind` set. Any other bind host is refused without
/// it. For a request through SSH the loopback test plays no part at all.
pub proof fn lemma_loopback_bind_host_accepted(
    r: CreateTunnelRequest,
    limits: TunnelRequestLimits,
    normalized_rules: Seq<TunnelRouteRule>,
    rules_verdict: Result<(), Seq<char>>,
    is_loopback_ip: bool,
    other: bool,
)
    ensures
        r.egress == TunnelEgress::PortmateHost && (is_loopback_ip || eq_ignore_ascii_case(
            trim(r.bind_host@),
            "localhost"@,
        )) ==> tunnel_request_problem(r, limits, normalized_rules, rules_verdict, is_loopback_ip)
            == tunnel_request_problem(
            CreateTunnelRequest { allow_remote_bind: true, ..r },
            limits,
            normalized_rules,
            rules_verdict,
            other,
        ),
        r.egress == TunnelEgress::Ssh ==> tunnel_request_problem(
            r,
            limits,
            normalized_rules,
            rules_verdict,
            is_loopback_ip,
        ) == tunnel_request_problem(r, limits, normalized_rules, rules_verdict, other),
        r.egress == TunnelEgress::PortmateHost && !r.allow_remote_bind && !is_loopback_ip
            && !eq_ignore_ascii_case(trim(r.bind_host@), "localhost"@) ==> tunnel_request_problem(
            r,
            limits,
            normalized_rules,
            rules_verdict,
            is_loopback_ip,
        ) is Some,
{
}

} // verus!
