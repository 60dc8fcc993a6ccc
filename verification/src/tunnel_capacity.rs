//! The limits on tunnels: how many a profile may enable, how many run at
//! once, and how many connections one tunnel serves.
use vstd::prelude::*;
use crate::profile::{ConnectionConfig, SessionStore, TunnelEgress, TunnelMode, TunnelSpec, find_profile, profile_index, ssh_of};
use crate::text::{decimal, push_str, str_eq, to_chars, trim, trim_string, u64_to_decimal};
use crate::tunnel::{recorded_if_changed, TunnelMetrics, MAX_ACTIVE_TUNNELS, MAX_TUNNEL_CONNECTIONS};
use crate::tunnel_health::{begins_with, same_counters};

verus! {

/// A tunnel runtime as the capacity checks see it.
#[derive(Clone, Debug)]
pub struct ActiveTunnel {
    pub session_id: String,
    pub egress: TunnelEgress,
    pub closed: bool,
}

/// The open host-proxy runtimes of the session among `runtimes`.
pub open spec fn open_host_proxies(runtimes: Seq<ActiveTunnel>, session_id: Seq<char>) -> nat
    decreases runtimes.len(),
{
    if runtimes.len() == 0 {
        0
    } else {
        let r = runtimes.last();
        open_host_proxies(runtimes.drop_last(), session_id) + if r.session_id@ == session_id && r.egress
            == TunnelEgress::PortmateHost && !r.closed {
            1nat
        } else {
            0nat
        }
    }
}

/// The enabled tunnels among `tunnels`.
pub open spec fn enabled_count(tunnels: Seq<TunnelSpec>) -> nat
    decreases tunnels.len(),
{
    if tunnels.len() == 0 {
        0
    } else {
        enabled_count(tunnels.drop_last()) + if tunnels.last().enabled {
            1nat
        } else {
            0nat
        }
    }
}

fn count_open_host_proxies(runtimes: &[ActiveTunnel], session_id: &str) -> (r: usize)
    ensures
        r == open_host_proxies(runtimes@, session_id@),
{
    let mut n: usize = 0;
    let mut i: usize = 0;
    while i < runtimes.len()
        invariant
            i <= runtimes@.len(),
            n == open_host_proxies(runtimes@.subrange(0, i as int), session_id@),
            n <= i,
        decreases runtimes@.len() - i,
    {
        assert(runtimes@.subrange(0, i + 1).drop_last() =~= runtimes@.subrange(0, i as int));
        let r = &runtimes[i];
        if !r.closed && r.egress == TunnelEgress::PortmateHost && str_eq(r.session_id.as_str(), session_id) {
            n = n + 1;
        }
        i = i + 1;
    }
    assert(runtimes@.subrange(0, i as int) =~= runtimes@);
    n
}

fn count_enabled(tunnels: &Vec<TunnelSpec>) -> (r: usize)
    ensures
        r == enabled_count(tunnels@),
{
    let mut n: usize = 0;
    let mut i: usize = 0;
    while i < tunnels.len()
        invariant
            i <= tunnels@.len(),
            n == enabled_count(tunnels@.subrange(0, i as int)),
            n <= i,
        decreases tunnels@.len() - i,
    {
        assert(tunnels@.subrange(0, i + 1).drop_last() =~= tunnels@.subrange(0, i as int));
        if tunnels[i].enabled {
            n = n + 1;
        }
        i = i + 1;
    }
    assert(tunnels@.subrange(0, i as int) =~= tunnels@);
    n
}

/// Whether the session may get one more tunnel with `egress`: a host proxy
/// while fewer than `max_per_profile` of the session's run, a tunnel through
/// SSH while its SSH profile enables fewer than `max_per_profile`.
pub open spec fn creation_capacity(
    store: SessionStore,
    session_id: Seq<char>,
    egress: TunnelEgress,
    runtimes: Seq<ActiveTunnel>,
    max_per_profile: nat,
) -> Result<(), Seq<char>> {
    match profile_index(store.profiles@, session_id) {
        None => Err("unknown session: "@ + session_id),
        Some(i) => if egress == TunnelEgress::PortmateHost {
            if open_host_proxies(runtimes, session_id) >= max_per_profile {
                Err("enabled PortMate host proxy count has reached "@ + decimal(max_per_profile))
            } else {
                Ok(())
            }
        } else {
            match ssh_of(store.profiles@[i].connection) {
                None => Err("tunnels require an SSH or Tmux session"@),
                Some(ssh) => if enabled_count(ssh.tunnels@) >= max_per_profile {
                    Err("enabled tunnel count has reached "@ + decimal(max_per_profile))
                } else {
                    Ok(())
                },
            }
        },
    }
}

pub fn ensure_tunnel_creation_capacity(
    store: &SessionStore,
    session_id: &str,
    egress: TunnelEgress,
    runtimes: &[ActiveTunnel],
    max_per_profile: usize,
) -> (r: Result<(), String>)
    ensures
        match creation_capacity(*store, session_id@, egress, runtimes@, max_per_profile as nat) {
            Ok(()) => r is Ok,
            Err(e) => r matches Err(f) && f@ == e,
        },
{
    let index = match find_profile(&store.profiles, session_id) {
        Some(i) => i,
        None => {
            let mut e = String::from_str("unknown session: ");
            push_str(&mut e, session_id);
            return Err(e);
        },
    };
    if egress == TunnelEgress::PortmateHost {
        if count_open_host_proxies(runtimes, session_id) >= max_per_profile {
            let mut e = String::from_str("enabled PortMate host proxy count has reached ");
            let n = u64_to_decimal(max_per_profile as u64);
            push_str(&mut e, n.as_str());
            return Err(e);
        }
        return Ok(());
    }
    let tunnels = match &store.profiles[index].connection {
        ConnectionConfig::Ssh(ssh) => &ssh.tunnels,
        ConnectionConfig::Tmux(ssh) => &ssh.tunnels,
        _ => return Err(String::from_str("tunnels require an SSH or Tmux session")),
    };
    if count_enabled(tunnels) >= max_per_profile {
        let mut e = String::from_str("enabled tunnel count has reached ");
        let n = u64_to_decimal(max_per_profile as u64);
        push_str(&mut e, n.as_str());
        return Err(e);
    }
    Ok(())
}

/// `ids` holds `id`.
pub open spec fn id_running(ids: Seq<String>, id: Seq<char>) -> bool {
    exists|i: int| 0 <= i < ids.len() && (#[trigger] ids[i])@ == id
}

/// A tunnel may start unless it is running already or
/// `MAX_ACTIVE_TUNNELS` run; `running_ids` are those of the running ones.
pub fn ensure_tunnel_runtime_slot(running_ids: &[String], tunnel_id: &str) -> (r: Result<(), String>)
    ensures
        id_running(running_ids@, tunnel_id@) ==> (r matches Err(e) && e@ == "tunnel already running: "@
            + tunnel_id@),
        !id_running(running_ids@, tunnel_id@) && running_ids@.len() >= MAX_ACTIVE_TUNNELS ==> (r matches Err(e)
            && e@ == "active tunnel count has reached "@ + decimal(MAX_ACTIVE_TUNNELS as nat)),
        !id_running(running_ids@, tunnel_id@) && running_ids@.len() < MAX_ACTIVE_TUNNELS ==> r is Ok,
{
    let mut i: usize = 0;
    while i < running_ids.len()
        invariant
            i <= running_ids@.len(),
            forall|j: int| 0 <= j < i ==> (#[trigger] running_ids@[j])@ != tunnel_id@,
        decreases running_ids@.len() - i,
    {
        if str_eq(running_ids[i].as_str(), tunnel_id) {
            let mut e = String::from_str("tunnel already running: ");
            push_str(&mut e, tunnel_id);
            return Err(e);
        }
        i = i + 1;
    }
    if running_ids.len() >= MAX_ACTIVE_TUNNELS {
        let mut e = String::from_str("active tunnel count has reached ");
        let n = u64_to_decimal(MAX_ACTIVE_TUNNELS as u64);
        push_str(&mut e, n.as_str());
        return Err(e);
    }
    Ok(())
}

/// Why a tunnel may not start, checked in this order: a blank id; the
/// tunnel already running or `MAX_ACTIVE_TUNNELS` running (see
/// `ensure_tunnel_runtime_slot`); a remote tunnel without a local target
/// host and port.
pub open spec fn tunnel_start_problem(
    running_ids: Seq<String>,
    id: Seq<char>,
    mode: TunnelMode,
    target_host: Seq<char>,
    target_port: u16,
) -> Option<Seq<char>> {
    if trim(id).len() == 0 {
        Some("tunnel requires an id"@)
    } else if id_running(running_ids, id) {
        Some("tunnel already running: "@ + id)
    } else if running_ids.len() >= MAX_ACTIVE_TUNNELS {
        Some("active tunnel count has reached "@ + decimal(MAX_ACTIVE_TUNNELS as nat))
    } else if mode == TunnelMode::Remote && (trim(target_host).len() == 0 || target_port == 0) {
        Some("remote tunnel requires a local target host and port"@)
    } else {
        None
    }
}

/// The checks a tunnel passes before its runtime starts; `running_ids` are
/// the ids of the running tunnels.
pub fn tunnel_start_precheck(
    running_ids: &[String],
    id: &str,
    mode: TunnelMode,
    target_host: &str,
    target_port: u16,
) -> (r: Result<(), String>)
    ensures
        match tunnel_start_problem(running_ids@, id@, mode, target_host@, target_port) {
            Some(e) => r matches Err(t) && t@ == e,
            None => r is Ok,
        },
{
    let trimmed = trim_string(id);
    if to_chars(trimmed.as_str()).len() == 0 {
        return Err(String::from_str("tunnel requires an id"));
    }
    ensure_tunnel_runtime_slot(running_ids, id)?;
    if mode == TunnelMode::Remote {
        let host = trim_string(target_host);
        if to_chars(host.as_str()).len() == 0 || target_port == 0 {
            return Err(String::from_str("remote tunnel requires a local target host and port"));
        }
    }
    Ok(())
}

/// The start of the error recorded when a tunnel refuses a connection.
pub open spec fn connection_limit_prefix() -> Seq<char> {
    "tunnel connection limit reached:"@
}

/// The error recorded when a tunnel refuses a connection.
pub open spec fn connection_limit_error() -> Seq<char> {
    connection_limit_prefix() + " app limit ("@ + decimal(MAX_TUNNEL_CONNECTIONS as nat) + ")"@
}

/// Records in the tunnel's metrics whether a connection got one of the
/// tunnel's `MAX_TUNNEL_CONNECTIONS` slots: a served connection forgets an
/// earlier refusal; a refused one is recorded unless it already is.
pub fn record_tunnel_connection_slot(metrics: &mut TunnelMetrics, acquired: bool) -> (r: bool)
    ensures
        r == acquired,
        acquired ==> error_cleared_with_prefix(*old(metrics), *final(metrics), connection_limit_prefix()),
        !acquired ==> recorded_if_changed(
            *old(metrics),
            connection_limit_error(),
            *final(metrics),
            !(old(metrics).last_error matches Some(e) && e@ == connection_limit_error()),
        ),
{
    if acquired {
        proof {
            reveal_strlit("tunnel connection limit reached:");
        }
        let _ = metrics.clear_error_with_prefix("tunnel connection limit reached:");
        true
    } else {
        let mut e = String::from_str("tunnel connection limit reached:");
        push_str(&mut e, " app limit (");
        let n = u64_to_decimal(MAX_TUNNEL_CONNECTIONS as u64);
        push_str(&mut e, n.as_str());
        push_str(&mut e, ")");
        let _ = metrics.record_error_if_changed(e.as_str());
        false
    }
}

/// `b` is `a` with an error that starts with `prefix` forgotten.
pub open spec fn error_cleared_with_prefix(a: TunnelMetrics, b: TunnelMetrics, prefix: Seq<char>) -> bool {
    let had = a.last_error matches Some(e) && begins_with(e@, prefix);
    &&& had ==> b.last_error is None && crate::tunnel::activity_after(a.last_activity, b.last_activity) && same_counters(a, b)
    &&& !had ==> b == a
}

} // verus!

verus! {

/// The runtime is an open host proxy of the session.
pub open spec fn open_host_proxy_of(r: ActiveTunnel, session_id: Seq<char>) -> bool {
    r.session_id@ == session_id && r.egress == TunnelEgress::PortmateHost && !r.closed
}

proof fn lemma_open_host_proxies_concat(a: Seq<ActiveTunnel>, b: Seq<ActiveTunnel>, session_id: Seq<char>)
    ensures
        open_host_proxies(a + b, session_id) == open_host_proxies(a, session_id) + open_host_proxies(b, session_id),
    decreases b.len(),
{
    if b.len() == 0 {
        assert(a + b =~= a);
    } else {
        lemma_open_host_proxies_concat(a, b.drop_last(), session_id);
        assert((a + b).drop_last() =~= a + b.drop_last());
        assert((a + b).last() == b.last());
    }
}

proof fn lemma_open_host_proxies_single(x: ActiveTunnel, session_id: Seq<char>)
    ensures
        open_host_proxies(seq![x], session_id) == if open_host_proxy_of(x, session_id) {
            1nat
        } else {
            0nat
        },
{
    assert(seq![x].drop_last() =~= Seq::<ActiveTunnel>::empty());
    assert(open_host_proxies(Seq::<ActiveTunnel>::empty(), session_id) == 0);
    assert(seq![x].last() == x);
}

/// Only the session's open host proxies count against a new host proxy:
/// a runtime of another session, a closed one, or one through SSH, taken
/// in or out at any place, never changes whether a tunnel may be created.
pub proof fn lemma_capacity_ignores_other_runtimes(
    store: SessionStore,
    session_id: Seq<char>,
    egress: TunnelEgress,
    before: Seq<ActiveTunnel>,
    x: ActiveTunnel,
    after: Seq<ActiveTunnel>,
    max_per_profile: nat,
)
    requires
        !open_host_proxy_of(x, session_id),
    ensures
        creation_capacity(store, session_id, egress, before + seq![x] + after, max_per_profile) == creation_capacity(
            store,
            session_id,
            egress,
            before + after,
            max_per_profile,
        ),
{
    lemma_open_host_proxies_concat(before + seq![x], after, session_id);
    lemma_open_host_proxies_concat(before, seq![x], session_id);
    lemma_open_host_proxies_concat(before, after, session_id);
    lemma_open_host_proxies_single(x, session_id);
}

/// A host proxy may start for a known session with none of its host
/// proxies open, under any positive limit, whatever else runs.
pub proof fn lemma_capacity_without_host_proxies(
    store: SessionStore,
    session_id: Seq<char>,
    runtimes: Seq<ActiveTunnel>,
    max_per_profile: nat,
)
    requires
        profile_index(store.profiles@, session_id) is Some,
        max_per_profile > 0,
        forall|i: int| 0 <= i < runtimes.len() ==> !open_host_proxy_of(#[trigger] runtimes[i], session_id),
    ensures
        creation_capacity(store, session_id, TunnelEgress::PortmateHost, runtimes, max_per_profile) is Ok,
{
    lemma_no_open_host_proxies(runtimes, session_id);
}

proof fn lemma_no_open_host_proxies(runtimes: Seq<ActiveTunnel>, session_id: Seq<char>)
    requires
        forall|i: int| 0 <= i < runtimes.len() ==> !open_host_proxy_of(#[trigger] runtimes[i], session_id),
    ensures
        open_host_proxies(runtimes, session_id) == 0,
    decreases runtimes.len(),
{
    if runtimes.len() > 0 {
        let d = runtimes.drop_last();
        assert forall|i: int| 0 <= i < d.len() implies !open_host_proxy_of(#[trigger] d[i], session_id) by {
            assert(d[i] == runtimes[i]);
        }
        lemma_no_open_host_proxies(d, session_id);
        assert(!open_host_proxy_of(runtimes[runtimes.len() - 1], session_id));
    }
}

} // verus!
