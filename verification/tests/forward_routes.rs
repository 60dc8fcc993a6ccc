use portmate_ssh::forward_routes::{RemoteForwardRoutes, RouteTarget};
use portmate_ssh::profile::{TunnelEgress, TunnelMode, TunnelSpec};

fn remote(id: &str, host: &str, port: u16) -> TunnelSpec {
    TunnelSpec {
        id: id.to_string(),
        label: id.to_string(),
        egress: TunnelEgress::Ssh,
        mode: TunnelMode::Remote,
        bind_host: host.to_string(),
        bind_port: port,
        target_host: "127.0.0.1".to_string(),
        target_port: 3000,
        route_rules: vec![],
        enabled: true,
    }
}

fn target(id: &str, owner: u64) -> Option<RouteTarget> {
    Some(RouteTarget { tunnel_id: id.to_string(), owner })
}

#[test]
fn registered_forwards_route_their_connections() {
    let mut routes = RemoteForwardRoutes::new();
    assert!(routes.is_empty());
    routes.register(&remote("a", "0.0.0.0", 8080), 1);
    assert!(!routes.is_empty());
    assert_eq!(routes.get("0.0.0.0:8080"), target("a", 1));
    assert_eq!(routes.get("*:8080"), target("a", 1));
    assert_eq!(routes.forwarded_route("0.0.0.0", 8080), target("a", 1));
    assert_eq!(routes.forwarded_route("127.0.0.1", 8080), target("a", 1));
    assert_eq!(routes.forwarded_route("127.0.0.1", 8081), None);
    assert_eq!(routes.port_route(8080), target("a", 1));
    routes.register(&remote("b", "localhost", 8080), 2);
    assert_eq!(routes.forwarded_route("0.0.0.0", 8080), target("a", 1));
    assert_eq!(routes.forwarded_route("localhost", 8080), target("b", 2));
    assert_eq!(routes.port_route(8080), target("b", 2));
}

#[test]
fn route_slots_belong_to_one_forward() {
    let mut routes = RemoteForwardRoutes::new();
    let a = remote("a", "0.0.0.0", 8080);
    assert_eq!(routes.ensure_remote_forward_route_slot(&a, 1), Ok(()));
    routes.register(&a, 1);
    assert_eq!(routes.ensure_remote_forward_route_slot(&a, 1), Ok(()));
    assert_eq!(
        routes.ensure_remote_forward_route_slot(&a, 2),
        Err("remote tunnel route already registered for 0.0.0.0:8080".to_string())
    );
    assert_eq!(
        routes.ensure_remote_forward_route_slot(&remote("b", "127.0.0.1", 8080), 1),
        Err("remote tunnel route already registered for 127.0.0.1:8080".to_string())
    );
    assert_eq!(routes.ensure_remote_forward_route_slot(&remote("b", "127.0.0.1", 9090), 1), Ok(()));
}

#[test]
fn forwards_remove_only_the_routes_they_own() {
    let mut routes = RemoteForwardRoutes::new();
    let a = remote("a", "0.0.0.0", 8080);
    routes.register(&a, 1);
    routes.register(&remote("b", "localhost", 8080), 2);
    routes.remove_remote_forward_routes_if_owned(&a, 1);
    assert_eq!(routes.get("0.0.0.0:8080"), None);
    assert_eq!(routes.get("*:8080"), target("b", 2));
    assert_eq!(routes.get("localhost:8080"), target("b", 2));
    routes.remove_remote_forward_routes_if_owned(&remote("b", "localhost", 8080), 9);
    assert_eq!(routes.get("localhost:8080"), target("b", 2));
    routes.remove_remote_forward_routes_if_owned(&remote("b", "localhost", 8080), 2);
    assert!(routes.is_empty());
    routes.remove("missing");
    routes.set("k".to_string(), RouteTarget { tunnel_id: "c".to_string(), owner: 3 });
    routes.set("k".to_string(), RouteTarget { tunnel_id: "d".to_string(), owner: 4 });
    assert_eq!(routes.get("k"), target("d", 4));
    routes.remove("k");
    assert!(routes.is_empty());
}

#[test]
fn health_checks_put_missing_routes_back() {
    let mut routes = RemoteForwardRoutes::new();
    let a = remote("a", "0.0.0.0", 8080);
    assert_eq!(routes.restore_remote_forward_routes(&a, 1), Ok(true));
    assert_eq!(routes.forwarded_route("0.0.0.0", 8080), target("a", 1));
    assert_eq!(routes.restore_remote_forward_routes(&a, 1), Ok(false));
    routes.remove("*:8080");
    assert_eq!(routes.restore_remote_forward_routes(&a, 1), Ok(true));
    assert_eq!(routes.port_route(8080), target("a", 1));
    routes.remove("0.0.0.0:8080");
    assert_eq!(
        routes.restore_remote_forward_routes(&a, 2),
        Err("remote tunnel route already registered for 0.0.0.0:8080".to_string())
    );
    assert_eq!(routes.get("0.0.0.0:8080"), None);
}
