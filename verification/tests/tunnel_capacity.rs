use portmate_ssh::identity::{AgentOfferMode, AgentPolicy, IdentityPolicy};
use portmate_ssh::profile::{
    ConnectionConfig, HostKeyMode, HostKeyPolicy, HostKeyScope, SessionProfile, SessionStore,
    SshConnection, TunnelEgress, TunnelMode, TunnelSpec,
};
use portmate_ssh::tunnel::TunnelMetrics;
use portmate_ssh::tunnel_capacity::{
    ensure_tunnel_creation_capacity, ensure_tunnel_runtime_slot, record_tunnel_connection_slot,
    tunnel_start_precheck,
    ActiveTunnel,
};

fn spec(id: &str, enabled: bool) -> TunnelSpec {
    TunnelSpec {
        id: id.to_string(),
        label: id.to_string(),
        egress: TunnelEgress::Ssh,
        mode: TunnelMode::Remote,
        bind_host: "0.0.0.0".to_string(),
        bind_port: 8080,
        target_host: "127.0.0.1".to_string(),
        target_port: 80,
        route_rules: vec![],
        enabled,
    }
}

fn store(tunnels: Vec<TunnelSpec>) -> SessionStore {
    let ssh = SshConnection {
        identity_policy: IdentityPolicy { auth_order: vec![], last_successful: None, record_success: false, identities_only: false },
        agent_policy: AgentPolicy { enabled: false, offer_mode: AgentOfferMode::AfterProfileKeys },
        identity_refs: vec![],
        host_key_policy: HostKeyPolicy { mode: HostKeyMode::TrustOnFirstUse, check_ip: false, trust_scope: HostKeyScope::User },
        trusted_host_keys: vec![],
        tunnels,
        reconnect: false,
        reconnect_delay_ms: 1000,
    };
    SessionStore {
        profiles: vec![
            SessionProfile { id: "p".to_string(), connection: ConnectionConfig::Ssh(ssh) },
            SessionProfile { id: "sh".to_string(), connection: ConnectionConfig::Shell },
        ],
        host_keys: vec![],
    }
}

fn proxy(session: &str, closed: bool) -> ActiveTunnel {
    ActiveTunnel { session_id: session.to_string(), egress: TunnelEgress::PortmateHost, closed }
}

#[test]
fn tunnel_creation_respects_the_profile_limit() {
    let s = store(vec![spec("a", true), spec("b", false), spec("c", true)]);
    assert_eq!(ensure_tunnel_creation_capacity(&s, "p", TunnelEgress::Ssh, &[], 3), Ok(()));
    assert_eq!(
        ensure_tunnel_creation_capacity(&s, "p", TunnelEgress::Ssh, &[], 2),
        Err("enabled tunnel count has reached 2".to_string())
    );
    assert_eq!(
        ensure_tunnel_creation_capacity(&s, "zz", TunnelEgress::Ssh, &[], 2),
        Err("unknown session: zz".to_string())
    );
    assert_eq!(
        ensure_tunnel_creation_capacity(&s, "sh", TunnelEgress::Ssh, &[], 2),
        Err("tunnels require an SSH or Tmux session".to_string())
    );
    let runtimes = vec![proxy("p", false), proxy("p", true), proxy("q", false)];
    assert_eq!(ensure_tunnel_creation_capacity(&s, "p", TunnelEgress::PortmateHost, &runtimes, 2), Ok(()));
    assert_eq!(ensure_tunnel_creation_capacity(&s, "sh", TunnelEgress::PortmateHost, &runtimes, 2), Ok(()));
    assert_eq!(
        ensure_tunnel_creation_capacity(&s, "p", TunnelEgress::PortmateHost, &runtimes, 1),
        Err("enabled PortMate host proxy count has reached 1".to_string())
    );
}

#[test]
fn running_tunnels_are_limited() {
    let ids = vec!["t1".to_string(), "t2".to_string()];
    assert_eq!(ensure_tunnel_runtime_slot(&ids, "t3"), Ok(()));
    assert_eq!(ensure_tunnel_runtime_slot(&ids, "t2"), Err("tunnel already running: t2".to_string()));
    let full: Vec<String> = (0..256).map(|i| format!("t{i}")).collect();
    assert_eq!(
        ensure_tunnel_runtime_slot(&full, "x"),
        Err("active tunnel count has reached 256".to_string())
    );
}

#[test]
fn refused_connections_are_recorded_once() {
    let mut metrics = TunnelMetrics::default();
    assert!(!record_tunnel_connection_slot(&mut metrics, false));
    assert_eq!(
        metrics.last_error.as_deref(),
        Some("tunnel connection limit reached: app limit (256)")
    );
    assert!(record_tunnel_connection_slot(&mut metrics, true));
    assert_eq!(metrics.last_error, None);
    metrics.last_error = Some("other".to_string());
    assert!(record_tunnel_connection_slot(&mut metrics, true));
    assert_eq!(metrics.last_error.as_deref(), Some("other"));
}


#[test]
fn tunnel_start_checks_id_slot_and_remote_target_in_order() {
    let running = vec!["a".to_string()];
    assert_eq!(
        tunnel_start_precheck(&running, "  ", TunnelMode::Remote, "", 0),
        Err("tunnel requires an id".to_string())
    );
    assert_eq!(
        tunnel_start_precheck(&running, "a", TunnelMode::Remote, "", 0),
        Err("tunnel already running: a".to_string())
    );
    assert_eq!(
        tunnel_start_precheck(&running, "b", TunnelMode::Remote, " ", 80),
        Err("remote tunnel requires a local target host and port".to_string())
    );
    assert_eq!(
        tunnel_start_precheck(&running, "b", TunnelMode::Remote, "localhost", 0),
        Err("remote tunnel requires a local target host and port".to_string())
    );
    assert_eq!(tunnel_start_precheck(&running, "b", TunnelMode::Remote, "localhost", 80), Ok(()));
    assert_eq!(tunnel_start_precheck(&running, "b", TunnelMode::Local, "", 0), Ok(()));
    let full: Vec<String> = (0..256).map(|i| format!("t{i}")).collect();
    assert_eq!(
        tunnel_start_precheck(&full, "b", TunnelMode::Local, "", 0),
        Err("active tunnel count has reached 256".to_string())
    );
}
