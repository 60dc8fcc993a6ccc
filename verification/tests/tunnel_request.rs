use portmate_ssh::profile::{TunnelEgress, TunnelMode, TunnelRouteRule};
use portmate_ssh::tunnel_request::{
    normalize_host_route_request, normalize_tunnel_request, CreateHostRouteRequest,
    CreateTunnelRequest, TunnelRequestLimits,
};

const LIMITS: TunnelRequestLimits = TunnelRequestLimits {
    max_route_rules: 2,
    max_session_id_characters: 16,
    max_host_characters: 20,
    max_label_characters: 8,
};

fn rule(host: &str) -> TunnelRouteRule {
    TunnelRouteRule { host: host.to_string() }
}

fn request(mode: TunnelMode, egress: TunnelEgress) -> CreateTunnelRequest {
    CreateTunnelRequest {
        session_id: " s1 ".to_string(),
        egress,
        mode,
        bind_host: " 127.0.0.1 ".to_string(),
        bind_port: 8080,
        target_host: " db ".to_string(),
        target_port: 5432,
        route_rules: vec![],
        allow_remote_bind: false,
        label: Some("  ".to_string()),
    }
}

fn check(r: CreateTunnelRequest, rules: Vec<TunnelRouteRule>, verdict: Result<(), String>, loopback: bool) -> Result<CreateTunnelRequest, String> {
    normalize_tunnel_request(r, LIMITS, rules, verdict, loopback)
}

#[test]
fn local_tunnels_are_trimmed_and_checked() {
    let ok = check(request(TunnelMode::Local, TunnelEgress::Ssh), vec![], Ok(()), true).unwrap();
    assert_eq!(ok.session_id, "s1");
    assert_eq!(ok.bind_host, "127.0.0.1");
    assert_eq!(ok.target_host, "db");
    assert_eq!(ok.target_port, 5432);
    assert_eq!(ok.label, None);

    let mut r = request(TunnelMode::Local, TunnelEgress::Ssh);
    r.target_port = 0;
    assert_eq!(check(r, vec![], Ok(()), true).unwrap_err(), "local and remote tunnels require a target host and port");
    let mut r = request(TunnelMode::Local, TunnelEgress::Ssh);
    r.session_id = "a\u{1}".to_string();
    assert_eq!(check(r, vec![], Ok(()), true).unwrap_err(), "tunnel session id must not contain control characters");
    let mut r = request(TunnelMode::Local, TunnelEgress::Ssh);
    r.session_id = "   ".to_string();
    assert_eq!(check(r, vec![], Ok(()), true).unwrap_err(), "tunnel session id must not be empty");
    let mut r = request(TunnelMode::Local, TunnelEgress::Ssh);
    r.label = Some("a much longer label".to_string());
    assert_eq!(check(r, vec![], Ok(()), true).unwrap_err(), "tunnel label exceeds 8 Unicode characters");
    let mut r = request(TunnelMode::Local, TunnelEgress::Ssh);
    r.target_host = "d b".to_string();
    assert_eq!(check(r, vec![], Ok(()), true).unwrap_err(), "tunnel target host must not contain whitespace");
    let mut r = request(TunnelMode::Local, TunnelEgress::Ssh);
    r.allow_remote_bind = true;
    assert_eq!(check(r, vec![], Ok(()), true).unwrap_err(), "allowRemoteBind is only valid for PortMate host egress");
    assert_eq!(
        check(request(TunnelMode::Local, TunnelEgress::Ssh), vec![rule("a")], Ok(()), true).unwrap_err(),
        "tunnel route rules are only supported by dynamic mode"
    );
}

#[test]
fn route_rules_are_counted_and_checked() {
    let mut r = request(TunnelMode::Dynamic, TunnelEgress::Ssh);
    r.route_rules = vec![rule("a"), rule("b"), rule("c")];
    assert_eq!(check(r, vec![], Ok(()), true).unwrap_err(), "tunnel route rule count exceeds 2");
    let mut r = request(TunnelMode::Dynamic, TunnelEgress::Ssh);
    r.route_rules = vec![rule("a"), rule("b\n")];
    assert_eq!(
        check(r, vec![], Ok(()), true).unwrap_err(),
        "tunnel route rule 2 host must not contain control characters"
    );
    let r = request(TunnelMode::Dynamic, TunnelEgress::Ssh);
    assert_eq!(check(r, vec![rule("x")], Err("bad rule".to_string()), true).unwrap_err(), "bad rule");
    let ok = check(request(TunnelMode::Dynamic, TunnelEgress::Ssh), vec![rule("x")], Ok(()), true).unwrap();
    assert_eq!(ok.target_host, "");
    assert_eq!(ok.target_port, 0);
    assert_eq!(ok.route_rules.len(), 1);
}

#[test]
fn host_egress_needs_loopback_and_rules() {
    assert_eq!(
        check(request(TunnelMode::Remote, TunnelEgress::PortmateHost), vec![], Ok(()), true).unwrap_err(),
        "PortMate host egress supports local TCP and dynamic SOCKS5 modes only"
    );
    assert_eq!(
        check(request(TunnelMode::Dynamic, TunnelEgress::PortmateHost), vec![], Ok(()), true).unwrap_err(),
        "PortMate host SOCKS5 proxies require at least one route rule"
    );
    let mut r = request(TunnelMode::Local, TunnelEgress::PortmateHost);
    r.bind_host = "0.0.0.0".to_string();
    assert_eq!(
        check(r, vec![], Ok(()), false).unwrap_err(),
        "PortMate host egress requires a loopback bind host unless allowRemoteBind is true"
    );
    let mut r = request(TunnelMode::Local, TunnelEgress::PortmateHost);
    r.bind_host = " LocalHost ".to_string();
    assert!(check(r, vec![], Ok(()), false).is_ok());
    let mut r = request(TunnelMode::Local, TunnelEgress::PortmateHost);
    r.bind_host = "0.0.0.0".to_string();
    r.allow_remote_bind = true;
    assert!(check(r, vec![], Ok(()), false).is_ok());
}

#[test]
fn host_routes_are_checked_as_host_tunnels() {
    let route = CreateHostRouteRequest {
        mode: TunnelMode::Local,
        bind_host: "localhost".to_string(),
        bind_port: 9000,
        target_host: " api ".to_string(),
        target_port: 443,
        route_rules: vec![],
        allow_remote_bind: false,
        label: Some(" api ".to_string()),
    };
    let ok = normalize_host_route_request(route, LIMITS, vec![], Ok(()), false).unwrap();
    assert_eq!(ok.target_host, "api");
    assert_eq!(ok.label.as_deref(), Some("api"));
    let remote = CreateHostRouteRequest {
        mode: TunnelMode::Remote,
        bind_host: "localhost".to_string(),
        bind_port: 9000,
        target_host: "api".to_string(),
        target_port: 443,
        route_rules: vec![],
        allow_remote_bind: false,
        label: None,
    };
    assert_eq!(
        normalize_host_route_request(remote, LIMITS, vec![], Ok(()), false).unwrap_err(),
        "PortMate host egress supports local TCP and dynamic SOCKS5 modes only"
    );
}
