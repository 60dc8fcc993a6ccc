use portmate_ssh::profile::{TunnelEgress, TunnelMode, TunnelSpec};
use portmate_ssh::tunnel::{
    forwarded_tcpip_ports, remote_forward_key, remote_forward_port_key,
    remote_forward_rollback_ports, tunnel_label, validate_tunnel_request_text, TunnelMetrics,
};

fn spec() -> TunnelSpec {
    TunnelSpec {
        id: "t1".to_string(),
        label: "web".to_string(),
        egress: TunnelEgress::Ssh,
        mode: TunnelMode::Local,
        bind_host: "127.0.0.1".to_string(),
        bind_port: 8080,
        target_host: "db".to_string(),
        target_port: 5432,
        route_rules: vec![],
        enabled: true,
    }
}

#[test]
fn metrics_count_connections_and_bytes() {
    let mut m = TunnelMetrics::default();
    m.connection_opened();
    m.connection_opened();
    m.connection_closed();
    m.add_tcp_to_ssh_bytes(100);
    m.add_ssh_to_tcp_bytes_u64(40);
    m.add_ssh_to_tcp_bytes(2);
    m.add_tcp_to_ssh_bytes_u64(u64::MAX);
    assert_eq!(m.active_connections, 1);
    assert_eq!(m.total_connections, 2);
    assert_eq!(m.tcp_to_ssh_bytes, 99);
    assert_eq!(m.ssh_to_tcp_bytes, 42);
    assert!(m.last_activity.is_some());
    m.connection_closed();
    m.connection_closed();
    assert_eq!(m.active_connections, 0);
    let status = m.snapshot(spec());
    assert_eq!(status.total_connections, 2);
    assert_eq!(status.spec.id, "t1");
}

#[test]
fn metrics_track_the_latest_error() {
    let mut m = TunnelMetrics::default();
    m.record_error("refused");
    assert_eq!(m.last_error.as_deref(), Some("refused"));
    assert!(!m.record_error_if_changed("refused"));
    assert!(m.record_error_if_changed("reset"));
    assert!(!m.clear_error_with_prefix("refused"));
    assert!(m.clear_error_with_prefix("res"));
    assert_eq!(m.last_error, None);
    m.record_error("x");
    m.clear_error();
    assert_eq!(m.last_error, None);
}

#[test]
fn forward_keys_and_ports() {
    assert_eq!(remote_forward_key("0.0.0.0", 80), "0.0.0.0:80");
    assert_eq!(remote_forward_port_key(8022), "*:8022");
    assert_eq!(forwarded_tcpip_ports(80, 51000), Some((80, 51000)));
    assert_eq!(forwarded_tcpip_ports(70000, 1), None);
    assert_eq!(remote_forward_rollback_ports(8080, Some(8080)), vec![8080]);
    assert_eq!(remote_forward_rollback_ports(0, Some(40000)), vec![40000]);
    assert_eq!(remote_forward_rollback_ports(8080, Some(40000)), vec![40000, 8080]);
    assert_eq!(remote_forward_rollback_ports(8080, Some(0)), vec![8080]);
    assert_eq!(remote_forward_rollback_ports(0, None), vec![0]);
}

#[test]
fn tunnel_labels_describe_the_forward() {
    assert_eq!(
        tunnel_label(TunnelMode::Local, "127.0.0.1", 8080, "db", 5432, 120),
        "127.0.0.1:8080 -> db:5432"
    );
    assert_eq!(tunnel_label(TunnelMode::Dynamic, "localhost", 1080, "", 0, 120), "SOCKS5 localhost:1080");
    assert_eq!(
        tunnel_label(TunnelMode::Remote, "0.0.0.0", 80, "web", 8080, 120),
        "remote 0.0.0.0:80 -> web:8080"
    );
    assert_eq!(tunnel_label(TunnelMode::Dynamic, "localhost", 1080, "", 0, 6), "SOCKS5");
}

#[test]
fn tunnel_text_is_validated() {
    assert_eq!(
        validate_tunnel_request_text("bind host", "", 10, false, true),
        Err("tunnel bind host must not be empty".to_string())
    );
    assert_eq!(validate_tunnel_request_text("bind host", "", 10, true, true), Ok(()));
    assert_eq!(
        validate_tunnel_request_text("label", "abcdef", 5, false, false),
        Err("tunnel label exceeds 5 Unicode characters".to_string())
    );
    assert_eq!(
        validate_tunnel_request_text("label", "a\u{7}b", 5, false, false),
        Err("tunnel label must not contain control characters".to_string())
    );
    assert_eq!(
        validate_tunnel_request_text("target host", "a b", 5, false, true),
        Err("tunnel target host must not contain whitespace".to_string())
    );
    assert_eq!(validate_tunnel_request_text("label", "a b", 5, false, false), Ok(()));
}

#[test]
fn recorded_activity_replaces_the_earlier_time() {
    let mut m = TunnelMetrics::default();
    m.connection_opened();
    m.record_activity_at("2024-01-01T00:00:00+00:00".to_string());
    assert_eq!(m.last_activity.as_deref(), Some("2024-01-01T00:00:00+00:00"));
    m.record_activity_at("2024-01-02T00:00:00+00:00".to_string());
    assert_eq!(m.last_activity.as_deref(), Some("2024-01-02T00:00:00+00:00"));
    assert_eq!(m.total_connections, 1);
    m.touch();
    let now = m.last_activity.clone().unwrap();
    assert_ne!(now, "2024-01-02T00:00:00+00:00");
    assert!(now.contains('T'));
}
