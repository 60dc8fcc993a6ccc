use portmate_ssh::identity::{AgentOfferMode, AgentPolicy, IdentityPolicy};
use portmate_ssh::profile::{
    ConnectionConfig, HostKeyMode, HostKeyPolicy, HostKeyScope, SessionProfile, SessionStore,
    SshConnection, TunnelEgress, TunnelMode, TunnelSpec,
};
use portmate_ssh::tunnel_store::{
    enabled_tunnel_specs, mark_saved_tunnel_stopped, mark_tunnel_stopped_in_store, place_started_tunnel, tunnel_listening_event, tunnel_stopped_event,
};

fn spec(id: &str, enabled: bool) -> TunnelSpec {
    TunnelSpec {
        id: id.to_string(),
        label: id.to_string(),
        egress: TunnelEgress::Ssh,
        mode: TunnelMode::Local,
        bind_host: "127.0.0.1".to_string(),
        bind_port: 8080,
        target_host: "db".to_string(),
        target_port: 5432,
        route_rules: vec![],
        enabled,
    }
}

fn ids(v: &[TunnelSpec]) -> Vec<(String, bool)> {
    v.iter().map(|t| (t.id.clone(), t.enabled)).collect()
}

#[test]
fn started_tunnels_replace_their_saved_copy() {
    let mut saved = vec![spec("a", true), spec("b", false), spec("a", false)];
    place_started_tunnel(&mut saved, spec("a", true), 3).unwrap();
    assert_eq!(ids(&saved), vec![("b".to_string(), false), ("a".to_string(), true)]);
}

#[test]
fn a_full_profile_makes_room_by_dropping_a_disabled_tunnel() {
    let mut saved = vec![spec("a", true), spec("b", false), spec("c", false)];
    place_started_tunnel(&mut saved, spec("d", true), 3).unwrap();
    assert_eq!(
        ids(&saved),
        vec![("a".to_string(), true), ("c".to_string(), false), ("d".to_string(), true)]
    );
    let mut full = vec![spec("a", true), spec("b", true)];
    assert_eq!(
        place_started_tunnel(&mut full, spec("c", true), 2),
        Err("enabled tunnel count has reached 2".to_string())
    );
}

#[test]
fn stopped_tunnels_stay_saved_but_disabled() {
    let mut saved = vec![spec("a", true), spec("b", true), spec("b", true)];
    mark_saved_tunnel_stopped(&mut saved, "b");
    assert_eq!(
        ids(&saved),
        vec![("a".to_string(), true), ("b".to_string(), false), ("b".to_string(), true)]
    );
    mark_saved_tunnel_stopped(&mut saved, "zz");
    assert_eq!(saved.len(), 3);
}

#[test]
fn tunnel_events_name_mode_and_addresses() {
    let t = spec("a", true);
    assert_eq!(
        tunnel_listening_event(&t, None),
        "PortMate: SSH Local tunnel listening on 127.0.0.1:8080 -> db:5432"
    );
    assert_eq!(
        tunnel_listening_event(&t, Some("127.0.0.1:49152")),
        "PortMate: SSH Local tunnel listening on 127.0.0.1:49152 -> db:5432"
    );
    assert_eq!(tunnel_stopped_event(&t), "PortMate: SSH Local tunnel stopped on 127.0.0.1:8080");
}

fn ssh_with_tunnels(tunnels: Vec<TunnelSpec>) -> SshConnection {
    SshConnection {
        identity_policy: IdentityPolicy { auth_order: vec![], last_successful: None, record_success: false, identities_only: false },
        agent_policy: AgentPolicy { enabled: false, offer_mode: AgentOfferMode::AfterProfileKeys },
        identity_refs: vec![],
        host_key_policy: HostKeyPolicy {
            mode: HostKeyMode::TrustOnFirstUse,
            check_ip: true,
            trust_scope: HostKeyScope::Profile,
        },
        trusted_host_keys: vec![],
        tunnels,
        reconnect: true,
        reconnect_delay_ms: 1000,
    }
}

fn store_with(profiles: Vec<SessionProfile>) -> SessionStore {
    SessionStore { profiles, host_keys: vec![] }
}

#[test]
fn a_session_restores_its_enabled_tunnels_in_saved_order() {
    let store = store_with(vec![
        SessionProfile { id: "other".to_string(), connection: ConnectionConfig::Ssh(ssh_with_tunnels(vec![spec("x", true)])) },
        SessionProfile {
            id: "s1".to_string(),
            connection: ConnectionConfig::Tmux(ssh_with_tunnels(vec![
                spec("a", true),
                spec("b", false),
                spec("c", true),
            ])),
        },
    ]);
    let restored = enabled_tunnel_specs(store, "s1").unwrap();
    assert_eq!(ids(&restored), vec![("a".to_string(), true), ("c".to_string(), true)]);
}

#[test]
fn unknown_or_local_sessions_restore_nothing() {
    let store = store_with(vec![SessionProfile { id: "sh".to_string(), connection: ConnectionConfig::Shell }]);
    assert_eq!(enabled_tunnel_specs(store.clone(), "sh").unwrap().len(), 0);
    assert_eq!(
        enabled_tunnel_specs(store, "missing").map(|v| v.len()),
        Err("unknown session: missing".to_string())
    );
}

fn saved_of(store: &SessionStore, i: usize) -> Vec<(String, bool)> {
    match &store.profiles[i].connection {
        ConnectionConfig::Ssh(s) | ConnectionConfig::Tmux(s) => ids(&s.tunnels),
        _ => vec![],
    }
}

#[test]
fn a_stopped_tunnel_is_disabled_in_its_sessions_profile_only() {
    let mut store = store_with(vec![
        SessionProfile { id: "s0".to_string(), connection: ConnectionConfig::Ssh(ssh_with_tunnels(vec![spec("a", true)])) },
        SessionProfile {
            id: "s1".to_string(),
            connection: ConnectionConfig::Ssh(ssh_with_tunnels(vec![spec("a", true), spec("b", true)])),
        },
    ]);
    mark_tunnel_stopped_in_store(&mut store, "s1", &spec("a", true));
    assert_eq!(saved_of(&store, 0), vec![("a".to_string(), true)]);
    assert_eq!(saved_of(&store, 1), vec![("a".to_string(), false), ("b".to_string(), true)]);
    mark_tunnel_stopped_in_store(&mut store, "missing", &spec("b", true));
    assert_eq!(saved_of(&store, 1), vec![("a".to_string(), false), ("b".to_string(), true)]);
}
