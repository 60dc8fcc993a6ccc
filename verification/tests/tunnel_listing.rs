use portmate_ssh::profile::{TunnelEgress, TunnelMode, TunnelSpec};
use portmate_ssh::tunnel::TunnelStatus;
use portmate_ssh::tunnel_listing::{list_tunnels, ListedTunnel};

fn listed(session: &str, id: &str, label: &str, closed: bool) -> ListedTunnel {
    ListedTunnel {
        session_id: session.to_string(),
        closed,
        status: TunnelStatus {
            spec: TunnelSpec {
                id: id.to_string(),
                label: label.to_string(),
                egress: TunnelEgress::Ssh,
                mode: TunnelMode::Local,
                bind_host: "127.0.0.1".to_string(),
                bind_port: 8080,
                target_host: "db".to_string(),
                target_port: 5432,
                route_rules: vec![],
                enabled: true,
            },
            active_connections: 0,
            total_connections: 0,
            tcp_to_ssh_bytes: 0,
            ssh_to_tcp_bytes: 0,
            last_activity: None,
            last_error: None,
        },
    }
}

fn ids(v: &[TunnelStatus]) -> Vec<&str> {
    v.iter().map(|s| s.spec.id.as_str()).collect()
}

#[test]
fn open_tunnels_are_listed_by_label_then_id() {
    let tunnels = vec![
        listed("p", "t3", "web", false),
        listed("p", "t1", "db", false),
        listed("q", "t0", "api", false),
        listed("p", "t2", "web", false),
        listed("p", "t9", "aaa", true),
        listed("p", "t4", "Zeta", false),
    ];
    let all = list_tunnels(tunnels, None);
    assert_eq!(ids(&all), vec!["t4", "t0", "t1", "t2", "t3"]);
    let tunnels = vec![
        listed("p", "t3", "web", false),
        listed("p", "t1", "db", false),
        listed("q", "t0", "api", false),
        listed("p", "t2", "web", false),
    ];
    let mine = list_tunnels(tunnels, Some("p"));
    assert_eq!(ids(&mine), vec!["t1", "t2", "t3"]);
    assert!(list_tunnels(vec![], Some("p")).is_empty());
}

#[test]
fn labels_order_as_strings_do() {
    let tunnels = vec![
        listed("p", "b", "é", false),
        listed("p", "a", "z", false),
        listed("p", "c", "ab", false),
        listed("p", "d", "a", false),
    ];
    assert_eq!(ids(&list_tunnels(tunnels, None)), vec!["d", "c", "a", "b"]);
}
