//! The routes of the remote forwards of one SSH runtime: which tunnel
//! serves a connection that the server forwards, keyed by `host:port` and
//! by `*:port`. Each route names the tunnel and the owner that registered
//! it (a token of the tunnel runtime's metrics), so that a tunnel removes
//! only the routes it still owns.
use vstd::prelude::*;
use crate::profile::TunnelSpec;
use crate::keyed::KeyedTable;
use crate::text::{decimal, push_str, str_eq, u64_to_decimal};
use crate::tunnel::{remote_forward_key, remote_forward_port_key};

verus! {

/// The tunnel a route leads to, and the owner that registered it.
#[derive(Clone, Debug, PartialEq, Eq)]
pub struct RouteTarget {
    pub tunnel_id: String,
    pub owner: u64,
}

/// The route of a key, as plain values.
pub open spec fn target_view(t: RouteTarget) -> (Seq<char>, u64) {
    (t.tunnel_id@, t.owner)
}

/// The routes of a runtime's remote forwards.
#[derive(Debug)]
pub struct RemoteForwardRoutes {
    table: KeyedTable<RouteTarget>,
}

/// The registry key of a remote forward on `host:port`.
pub open spec fn exact_key(host: Seq<char>, port: u16) -> Seq<char> {
    host + seq![':'] + decimal(port as nat)
}

/// The registry key of a remote forward on `port` of every address.
pub open spec fn port_key(port: u16) -> Seq<char> {
    seq!['*', ':'] + decimal(port as nat)
}

/// `b` holds the routes of `a`, but `target` for `key`.
pub open spec fn routes_set(a: RemoteForwardRoutes, key: Seq<char>, target: (Seq<char>, u64), b: RemoteForwardRoutes) -> bool {
    &&& b.route(key) == Some(target)
    &&& forall|k: Seq<char>| k != key ==> #[trigger] b.route(k) == a.route(k)
}

/// `b` holds the routes of `a`, but none for `key`.
pub open spec fn route_removed(a: RemoteForwardRoutes, key: Seq<char>, b: RemoteForwardRoutes) -> bool {
    &&& b.route(key) is None
    &&& forall|k: Seq<char>| k != key ==> #[trigger] b.route(k) == a.route(k)
}

/// The route is absent or was registered by `tunnel_id` with `owner`.
pub open spec fn free_or_owned(route: Option<(Seq<char>, u64)>, tunnel_id: Seq<char>, owner: u64) -> bool {
    match route {
        None => true,
        Some((t, o)) => t == tunnel_id && o == owner,
    }
}

impl RemoteForwardRoutes {
    /// The route for `key`.
    pub closed spec fn route(self, key: Seq<char>) -> Option<(Seq<char>, u64)> {
        match self.table.value(key) {
            Some(t) => Some(target_view(t)),
            None => None,
        }
    }

    /// The routes are well formed.
    pub closed spec fn wf(self) -> bool {
        self.table.wf()
    }

    /// No routes.
    pub fn new() -> (r: Self)
        ensures
            r.wf(),
            forall|k: Seq<char>| #[trigger] r.route(k) is None,
    {
        let r = RemoteForwardRoutes { table: KeyedTable::new() };
        assert forall|k: Seq<char>| #[trigger] r.route(k) is None by {
            assert(r.table.value(k) is None);
        }
        r
    }

    /// The route for `key`.
    pub fn get(&self, key: &str) -> (r: Option<RouteTarget>)
        ensures
            match r {
                Some(t) => self.route(key@) == Some(target_view(t)),
                None => self.route(key@) is None,
            },
    {
        match self.table.get(key) {
            Some(t) => Some(RouteTarget { tunnel_id: t.tunnel_id.clone(), owner: t.owner }),
            None => None,
        }
    }

    /// Whether there are no routes.
    pub fn is_empty(&self) -> (r: bool)
        ensures
            r == forall|k: Seq<char>| #[trigger] self.route(k) is None,
    {
        let r = self.table.is_empty();
        proof {
            if !r {
                let k = choose|k: Seq<char>| !(#[trigger] self.table.value(k) is None);
                assert(self.route(k) is Some);
            } else {
                assert forall|k: Seq<char>| #[trigger] self.route(k) is None by {
                    assert(self.table.value(k) is None);
                }
            }
        }
        r
    }

    /// Routes `key` to `target`, in place of any route it had.
    pub fn set(&mut self, key: String, target: RouteTarget)
        requires
            old(self).wf(),
        ensures
            final(self).wf(),
            routes_set(*old(self), key@, target_view(target), *final(self)),
    {
        let ghost before = *self;
        self.table.set(key, target);
        assert forall|k: Seq<char>| k != key@ implies #[trigger] self.route(k) == before.route(k) by {
            assert(self.table.value(k) == before.table.value(k));
        }
    }

    /// Drops the route for `key`, if any.
    pub fn remove(&mut self, key: &str)
        requires
            old(self).wf(),
        ensures
            final(self).wf(),
            route_removed(*old(self), key@, *final(self)),
    {
        let ghost before = *self;
        self.table.remove(key);
        assert forall|k: Seq<char>| k != key@ implies #[trigger] self.route(k) == before.route(k) by {
            assert(self.table.value(k) == before.table.value(k));
        }
    }

    /// Registers a remote forward: both of its keys lead to `tunnel`, owned
    /// by `owner`.
    pub fn register(&mut self, tunnel: &TunnelSpec, owner: u64)
        requires
            old(self).wf(),
        ensures
            final(self).wf(),
            final(self).route(exact_key(tunnel.bind_host@, tunnel.bind_port)) == Some((tunnel.id@, owner)),
            final(self).route(port_key(tunnel.bind_port)) == Some((tunnel.id@, owner)),
            forall|k: Seq<char>|
                k != exact_key(tunnel.bind_host@, tunnel.bind_port) && k != port_key(tunnel.bind_port)
                    ==> #[trigger] final(self).route(k) == old(self).route(k),
    {
        let ghost start = *self;
        let exact = remote_forward_key(tunnel.bind_host.as_str(), tunnel.bind_port);
        self.set(exact, RouteTarget { tunnel_id: tunnel.id.clone(), owner });
        let ghost middle = *self;
        let port = remote_forward_port_key(tunnel.bind_port);
        self.set(port, RouteTarget { tunnel_id: tunnel.id.clone(), owner });
        proof {
            let e = exact_key(tunnel.bind_host@, tunnel.bind_port);
            let p = port_key(tunnel.bind_port);
            if e != p {
                assert(middle.route(e) == Some((tunnel.id@, owner)));
            }
            assert forall|k: Seq<char>| k != e && k != p implies #[trigger] self.route(k) == start.route(k) by {
                assert(self.route(k) == middle.route(k));
            }
        }
    }

    /// Puts the routes of a remote forward back when either is missing, as
    /// a health check does; tells whether it had to. Refused when another
    /// forward holds one of them.
    pub fn restore_remote_forward_routes(&mut self, tunnel: &TunnelSpec, owner: u64) -> (r: Result<bool, String>)
        requires
            old(self).wf(),
        ensures
            final(self).wf(),
            old(self).route(exact_key(tunnel.bind_host@, tunnel.bind_port)) is Some && old(self).route(
                port_key(tunnel.bind_port),
            ) is Some ==> r == Ok::<bool, String>(false) && *final(self) == *old(self),
            !(old(self).route(exact_key(tunnel.bind_host@, tunnel.bind_port)) is Some && old(self).route(
                port_key(tunnel.bind_port),
            ) is Some) ==> if free_or_owned(old(self).route(exact_key(tunnel.bind_host@, tunnel.bind_port)), tunnel.id@, owner)
                && free_or_owned(old(self).route(port_key(tunnel.bind_port)), tunnel.id@, owner) {
                r == Ok::<bool, String>(true) && final(self).route(exact_key(tunnel.bind_host@, tunnel.bind_port))
                    == Some((tunnel.id@, owner)) && final(self).route(port_key(tunnel.bind_port)) == Some(
                    (tunnel.id@, owner),
                ) && forall|k: Seq<char>|
                    k != exact_key(tunnel.bind_host@, tunnel.bind_port) && k != port_key(tunnel.bind_port)
                        ==> #[trigger] final(self).route(k) == old(self).route(k)
            } else {
                r is Err && *final(self) == *old(self)
            },
    {
        let exact = remote_forward_key(tunnel.bind_host.as_str(), tunnel.bind_port);
        let port = remote_forward_port_key(tunnel.bind_port);
        let has_exact = self.get(exact.as_str()).is_some();
        let has_port = self.get(port.as_str()).is_some();
        if has_exact && has_port {
            return Ok(false);
        }
        match self.ensure_remote_forward_route_slot(tunnel, owner) {
            Ok(()) => {},
            Err(e) => return Err(e),
        }
        self.register(tunnel, owner);
        Ok(true)
    }

    /// The tunnel for a connection the server forwarded to
    /// `connected_address:connected_port`: the route for that address, else
    /// the route for the port.
    pub fn forwarded_route(&self, connected_address: &str, connected_port: u16) -> (r: Option<RouteTarget>)
        ensures
            match self.route(exact_key(connected_address@, connected_port)) {
                Some(t) => r matches Some(x) && target_view(x) == t,
                None => match self.route(port_key(connected_port)) {
                    Some(t) => r matches Some(x) && target_view(x) == t,
                    None => r is None,
                },
            },
    {
        let exact = remote_forward_key(connected_address, connected_port);
        match self.get(exact.as_str()) {
            Some(t) => Some(t),
            None => {
                let port = remote_forward_port_key(connected_port);
                self.get(port.as_str())
            },
        }
    }

    /// The tunnel for a connection forwarded to `port`, whatever address.
    pub fn port_route(&self, port: u16) -> (r: Option<RouteTarget>)
        ensures
            match self.route(port_key(port)) {
                Some(t) => r matches Some(x) && target_view(x) == t,
                None => r is None,
            },
    {
        let key = remote_forward_port_key(port);
        self.get(key.as_str())
    }

    /// Whether a remote forward may take its routes: both must be free or
    /// already its own (same tunnel and owner).
    pub fn ensure_remote_forward_route_slot(&self, tunnel: &TunnelSpec, owner: u64) -> (r: Result<(), String>)
        ensures
            free_or_owned(self.route(exact_key(tunnel.bind_host@, tunnel.bind_port)), tunnel.id@, owner)
                && free_or_owned(self.route(port_key(tunnel.bind_port)), tunnel.id@, owner) ==> r is Ok,
            !(free_or_owned(self.route(exact_key(tunnel.bind_host@, tunnel.bind_port)), tunnel.id@, owner)
                && free_or_owned(self.route(port_key(tunnel.bind_port)), tunnel.id@, owner)) ==> (r matches Err(e)
                && e@ == "remote tunnel route already registered for "@ + tunnel.bind_host@ + ":"@ + decimal(
                tunnel.bind_port as nat,
            )),
    {
        let exact = remote_forward_key(tunnel.bind_host.as_str(), tunnel.bind_port);
        let port = remote_forward_port_key(tunnel.bind_port);
        let exact_ok = match self.get(exact.as_str()) {
            None => true,
            Some(t) => t.owner == owner && str_eq(t.tunnel_id.as_str(), tunnel.id.as_str()),
        };
        let port_ok = match self.get(port.as_str()) {
            None => true,
            Some(t) => t.owner == owner && str_eq(t.tunnel_id.as_str(), tunnel.id.as_str()),
        };
        if exact_ok && port_ok {
            return Ok(());
        }
        let mut e = String::from_str("remote tunnel route already registered for ");
        push_str(&mut e, tunnel.bind_host.as_str());
        push_str(&mut e, ":");
        let p = u64_to_decimal(tunnel.bind_port as u64);
        push_str(&mut e, p.as_str());
        Err(e)
    }

    fn remove_if_owned(&mut self, key: String, tunnel_id: &str, owner: u64)
        requires
            old(self).wf(),
        ensures
            final(self).wf(),
            old(self).route(key@) == Some((tunnel_id@, owner)) ==> route_removed(*old(self), key@, *final(self)),
            old(self).route(key@) != Some((tunnel_id@, owner)) ==> *final(self) == *old(self),
    {
        let owned = match self.get(key.as_str()) {
            Some(t) => t.owner == owner && str_eq(t.tunnel_id.as_str(), tunnel_id),
            None => false,
        };
        if owned {
            self.remove(key.as_str());
        }
    }

    /// Drops the routes of a remote forward that `owner` registered for
    /// `tunnel`; routes that another tunnel or runtime registered stay.
    pub fn remove_remote_forward_routes_if_owned(&mut self, tunnel: &TunnelSpec, owner: u64)
        requires
            old(self).wf(),
        ensures
            final(self).wf(),
            old(self).route(exact_key(tunnel.bind_host@, tunnel.bind_port)) == Some((tunnel.id@, owner))
                ==> final(self).route(exact_key(tunnel.bind_host@, tunnel.bind_port)) is None,
            old(self).route(port_key(tunnel.bind_port)) == Some((tunnel.id@, owner)) ==> final(self).route(
                port_key(tunnel.bind_port),
            ) is None,
            forall|k: Seq<char>| #![trigger final(self).route(k)]
                old(self).route(k) != Some((tunnel.id@, owner)) ==> final(self).route(k) == old(self).route(k),
            forall|k: Seq<char>|
                k != exact_key(tunnel.bind_host@, tunnel.bind_port) && k != port_key(tunnel.bind_port)
                    ==> #[trigger] final(self).route(k) == old(self).route(k),
    {
        let ghost start = *self;
        let exact = remote_forward_key(tunnel.bind_host.as_str(), tunnel.bind_port);
        self.remove_if_owned(exact, tunnel.id.as_str(), owner);
        let ghost middle = *self;
        let port = remote_forward_port_key(tunnel.bind_port);
        self.remove_if_owned(port, tunnel.id.as_str(), owner);
        proof {
            let e = exact_key(tunnel.bind_host@, tunnel.bind_port);
            let p = port_key(tunnel.bind_port);
            assert forall|k: Seq<char>| #![trigger self.route(k)]
                start.route(k) != Some((tunnel.id@, owner)) implies self.route(k) == start.route(k) by {
                if k == e {
                    assert(middle.route(k) == start.route(k));
                } else {
                    assert(middle.route(k) == start.route(k));
                }
            }
            if start.route(e) == Some((tunnel.id@, owner)) && e != p {
                assert(middle.route(e) is None);
            }
        }
    }
}

/// A remote forward that registers its routes and then removes them, with
/// no other change between, leaves the routes as they were when its keys
/// were free before.
pub proof fn lemma_register_then_remove(
    a: RemoteForwardRoutes,
    b: RemoteForwardRoutes,
    c: RemoteForwardRoutes,
    tunnel: TunnelSpec,
    owner: u64,
)
    requires
        a.route(exact_key(tunnel.bind_host@, tunnel.bind_port)) is None,
        a.route(port_key(tunnel.bind_port)) is None,
        b.route(exact_key(tunnel.bind_host@, tunnel.bind_port)) == Some((tunnel.id@, owner)),
        b.route(port_key(tunnel.bind_port)) == Some((tunnel.id@, owner)),
        forall|k: Seq<char>|
            k != exact_key(tunnel.bind_host@, tunnel.bind_port) && k != port_key(tunnel.bind_port)
                ==> #[trigger] b.route(k) == a.route(k),
        b.route(exact_key(tunnel.bind_host@, tunnel.bind_port)) == Some((tunnel.id@, owner)) ==> c.route(
            exact_key(tunnel.bind_host@, tunnel.bind_port),
        ) is None,
        b.route(port_key(tunnel.bind_port)) == Some((tunnel.id@, owner)) ==> c.route(port_key(tunnel.bind_port))
            is None,
        forall|k: Seq<char>|
            k != exact_key(tunnel.bind_host@, tunnel.bind_port) && k != port_key(tunnel.bind_port)
                ==> #[trigger] c.route(k) == b.route(k),
    ensures
        forall|k: Seq<char>| #[trigger] c.route(k) == a.route(k),
{
    assert forall|k: Seq<char>| #[trigger] c.route(k) == a.route(k) by {
        if k != exact_key(tunnel.bind_host@, tunnel.bind_port) && k != port_key(tunnel.bind_port) {
            assert(c.route(k) == b.route(k));
        }
    }
}

} // verus!
