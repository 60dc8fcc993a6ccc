//! The saved tunnels of a profile as tunnels start and stop: a started
//! tunnel replaces the saved one with its id, making room by dropping a
//! disabled one when the profile is full; a stopped one stays saved but
//! disabled. Also the event texts that such changes record, and which
//! saved tunnels a session restores when it connects.
use vstd::prelude::*;
use crate::profile::{
    find_profile, profile_index, ssh_of, ConnectionConfig, SessionProfile, SessionStore, SshConnection, TunnelMode,
    TunnelSpec,
};
use crate::text::{decimal, push_str, str_eq, u64_to_decimal};

verus! {

/// The saved tunnels other than those with `id`.
pub open spec fn without_tunnel(tunnels: Seq<TunnelSpec>, id: Seq<char>) -> Seq<TunnelSpec> {
    tunnels.filter(|t: TunnelSpec| t.id@ != id)
}

/// The position of the first disabled tunnel.
pub open spec fn first_disabled(tunnels: Seq<TunnelSpec>) -> Option<int>
    decreases tunnels.len(),
{
    if tunnels.len() == 0 {
        None
    } else if !tunnels[0].enabled {
        Some(0)
    } else {
        match first_disabled(tunnels.drop_first()) {
            Some(i) => Some(i + 1),
            None => None,
        }
    }
}

/// The saved tunnels once `tunnel` started: the saved one with its id is
/// replaced; when `max` remain, the first disabled one makes room; refused
/// when none does.
pub open spec fn placed_tunnels(tunnels: Seq<TunnelSpec>, tunnel: TunnelSpec, max: nat) -> Result<
    Seq<TunnelSpec>,
    Seq<char>,
> {
    let kept = without_tunnel(tunnels, tunnel.id@);
    let room = if kept.len() >= max {
        match first_disabled(kept) {
            Some(i) => kept.remove(i),
            None => kept,
        }
    } else {
        kept
    };
    if room.len() >= max {
        Err("enabled tunnel count has reached "@ + decimal(max))
    } else {
        Ok(room.push(tunnel))
    }
}

fn remove_tunnels_with_id(tunnels: &mut Vec<TunnelSpec>, id: &str)
    ensures
        final(tunnels)@ == without_tunnel(old(tunnels)@, id@),
{
    let ghost orig = tunnels@;
    let ghost p = |t: TunnelSpec| t.id@ != id@;
    let mut i = tunnels.len();
    assert(orig.subrange(orig.len() as int, orig.len() as int) =~= Seq::<TunnelSpec>::empty());
    assert(Seq::<TunnelSpec>::empty().filter(p) =~= Seq::<TunnelSpec>::empty());
    assert(orig.subrange(0, orig.len() as int) =~= orig);
    while i > 0
        invariant
            i <= orig.len(),
            tunnels@ == orig.subrange(0, i as int) + orig.subrange(i as int, orig.len() as int).filter(p),
            p == (|t: TunnelSpec| t.id@ != id@),
        decreases i,
    {
        i = i - 1;
        let ghost tail = orig.subrange(i + 1, orig.len() as int);
        assert(orig.subrange(i as int, orig.len() as int) =~= seq![orig[i as int]] + tail);
        proof {
            tail.lemma_filter_prepend(orig[i as int], p);
        }
        assert(tunnels@[i as int] == orig[i as int]);
        if str_eq(tunnels[i].id.as_str(), id) {
            tunnels.remove(i);
            assert(tunnels@ =~= orig.subrange(0, i as int) + tail.filter(p));
        } else {
            assert(tunnels@ =~= orig.subrange(0, i as int) + (seq![orig[i as int]] + tail.filter(p)));
        }
    }
    assert(orig.subrange(0, 0) + orig.subrange(0, orig.len() as int).filter(p) =~= orig.filter(p));
}

pub proof fn lemma_first_disabled(tunnels: Seq<TunnelSpec>)
    ensures
        first_disabled(tunnels) matches Some(i) ==> 0 <= i < tunnels.len() && !tunnels[i].enabled,
    decreases tunnels.len(),
{
    if tunnels.len() > 0 && tunnels[0].enabled {
        lemma_first_disabled(tunnels.drop_first());
    }
}

fn find_first_disabled(tunnels: &Vec<TunnelSpec>) -> (r: Option<usize>)
    ensures
        match first_disabled(tunnels@) {
            Some(i) => r == Some(i as usize),
            None => r is None,
        },
        r matches Some(i) ==> i < tunnels@.len() && first_disabled(tunnels@) == Some(i as int),
{
    proof {
        lemma_first_disabled(tunnels@);
    }
    assert(tunnels@.subrange(0, tunnels@.len() as int) =~= tunnels@);
    let mut i: usize = 0;
    while i < tunnels.len()
        invariant
            i <= tunnels@.len(),
            forall|j: int| 0 <= j < i ==> (#[trigger] tunnels@[j]).enabled,
            first_disabled(tunnels@) == match first_disabled(tunnels@.subrange(i as int, tunnels@.len() as int)) {
                Some(k) => Some(k + i),
                None => None::<int>,
            },
        decreases tunnels@.len() - i,
    {
        let ghost rest = tunnels@.subrange(i as int, tunnels@.len() as int);
        assert(rest.drop_first() =~= tunnels@.subrange(i + 1, tunnels@.len() as int));
        assert(rest[0] == tunnels@[i as int]);
        if !tunnels[i].enabled {
            return Some(i);
        }
        i = i + 1;
    }
    None
}

/// Saves `tunnel` among the profile's saved tunnels as it starts, within
/// `max` saved tunnels.
pub fn place_started_tunnel(tunnels: &mut Vec<TunnelSpec>, tunnel: TunnelSpec, max: usize) -> (r: Result<(), String>)
    ensures
        match placed_tunnels(old(tunnels)@, tunnel, max as nat) {
            Ok(ts) => r is Ok && final(tunnels)@ == ts,
            Err(e) => r matches Err(f) && f@ == e,
        },
{
    remove_tunnels_with_id(tunnels, tunnel.id.as_str());
    let ghost kept = tunnels@;
    assert(kept == without_tunnel(old(tunnels)@, tunnel.id@));
    if tunnels.len() >= max {
        match find_first_disabled(tunnels) {
            Some(index) => {
                assert(first_disabled(kept) == Some(index as int));
                tunnels.remove(index);
                assert(tunnels@ == kept.remove(index as int));
            },
            None => {
                assert(first_disabled(kept) is None);
            },
        }
    }
    assert(tunnels@ == (if kept.len() >= max {
        match first_disabled(kept) {
            Some(i) => kept.remove(i),
            None => kept,
        }
    } else {
        kept
    }));
    if tunnels.len() >= max {
        let mut e = String::from_str("enabled tunnel count has reached ");
        let n = u64_to_decimal(max as u64);
        push_str(&mut e, n.as_str());
        return Err(e);
    }
    tunnels.push(tunnel);
    Ok(())
}

/// Once a tunnel started, the profile saves it exactly once, as its last
/// tunnel, and keeps no more than `max`.
pub proof fn lemma_started_tunnel_saved_once(tunnels: Seq<TunnelSpec>, tunnel: TunnelSpec, max: nat)
    requires
        placed_tunnels(tunnels, tunnel, max) is Ok,
    ensures
        placed_tunnels(tunnels, tunnel, max) matches Ok(saved) && saved.last() == tunnel && saved.len() <= max
            && forall|i: int| 0 <= i < saved.len() - 1 ==> (#[trigger] saved[i]).id@ != tunnel.id@,
{
    let p = |t: TunnelSpec| t.id@ != tunnel.id@;
    let kept = without_tunnel(tunnels, tunnel.id@);
    assert forall|i: int| 0 <= i < kept.len() implies (#[trigger] kept[i]).id@ != tunnel.id@ by {
        tunnels.lemma_filter_pred(p, i);
    }
    lemma_first_disabled(kept);
}

/// The saved tunnels once the tunnel with `id` stopped: the first with that
/// id is kept but disabled.
pub open spec fn stopped_tunnels(tunnels: Seq<TunnelSpec>, id: Seq<char>) -> Seq<TunnelSpec> {
    match first_with_id(tunnels, id) {
        Some(i) => tunnels.update(i, TunnelSpec { enabled: false, ..tunnels[i] }),
        None => tunnels,
    }
}

/// The position of the first tunnel with `id`.
pub open spec fn first_with_id(tunnels: Seq<TunnelSpec>, id: Seq<char>) -> Option<int>
    decreases tunnels.len(),
{
    if tunnels.len() == 0 {
        None
    } else if tunnels[0].id@ == id {
        Some(0)
    } else {
        match first_with_id(tunnels.drop_first(), id) {
            Some(i) => Some(i + 1),
            None => None,
        }
    }
}

/// Marks the saved tunnel with `id` as disabled once it stopped.
pub fn mark_saved_tunnel_stopped(tunnels: &mut Vec<TunnelSpec>, id: &str)
    ensures
        final(tunnels)@ == stopped_tunnels(old(tunnels)@, id@),
{
    assert(tunnels@.subrange(0, tunnels@.len() as int) =~= tunnels@);
    let mut i: usize = 0;
    while i < tunnels.len()
        invariant
            i <= tunnels@.len(),
            tunnels@ == old(tunnels)@,
            forall|j: int| 0 <= j < i ==> (#[trigger] tunnels@[j]).id@ != id@,
            first_with_id(tunnels@, id@) == match first_with_id(
                tunnels@.subrange(i as int, tunnels@.len() as int),
                id@,
            ) {
                Some(k) => Some(k + i),
                None => None::<int>,
            },
        decreases tunnels@.len() - i,
    {
        let ghost rest = tunnels@.subrange(i as int, tunnels@.len() as int);
        assert(rest.drop_first() =~= tunnels@.subrange(i + 1, tunnels@.len() as int));
        assert(rest[0] == tunnels@[i as int]);
        if str_eq(tunnels[i].id.as_str(), id) {
            tunnels[i].enabled = false;
            assert(tunnels@ =~= stopped_tunnels(old(tunnels)@, id@));
            return;
        }
        i = i + 1;
    }
}

/// How a tunnel's mode is named in events.
pub open spec fn mode_name(mode: TunnelMode) -> Seq<char> {
    match mode {
        TunnelMode::Local => "Local"@,
        TunnelMode::Remote => "Remote"@,
        TunnelMode::Dynamic => "Dynamic"@,
    }
}

fn push_mode_name(s: &mut String, mode: TunnelMode)
    ensures
        final(s)@ == old(s)@ + mode_name(mode),
{
    match mode {
        TunnelMode::Local => push_str(s, "Local"),
        TunnelMode::Remote => push_str(s, "Remote"),
        TunnelMode::Dynamic => push_str(s, "Dynamic"),
    }
}

/// The event of a tunnel that started listening: on the address it bound
/// (`local_addr`, as the system wrote it), else on its configured bind
/// address.
pub fn tunnel_listening_event(tunnel: &TunnelSpec, local_addr: Option<&str>) -> (r: String)
    ensures
        r@ == "PortMate: SSH "@ + mode_name(tunnel.mode) + " tunnel listening on "@ + match local_addr {
            Some(a) => a@,
            None => tunnel.bind_host@ + ":"@ + decimal(tunnel.bind_port as nat),
        } + " -> "@ + tunnel.target_host@ + ":"@ + decimal(tunnel.target_port as nat),
{
    let mut r = String::from_str("PortMate: SSH ");
    push_mode_name(&mut r, tunnel.mode);
    push_str(&mut r, " tunnel listening on ");
    match local_addr {
        Some(a) => push_str(&mut r, a),
        None => {
            push_str(&mut r, tunnel.bind_host.as_str());
            push_str(&mut r, ":");
            let p = u64_to_decimal(tunnel.bind_port as u64);
            push_str(&mut r, p.as_str());
        },
    }
    push_str(&mut r, " -> ");
    push_str(&mut r, tunnel.target_host.as_str());
    push_str(&mut r, ":");
    let t = u64_to_decimal(tunnel.target_port as u64);
    push_str(&mut r, t.as_str());
    r
}

/// The event of a tunnel that stopped.
pub fn tunnel_stopped_event(stopped: &TunnelSpec) -> (r: String)
    ensures
        r@ == "PortMate: SSH "@ + mode_name(stopped.mode) + " tunnel stopped on "@ + stopped.bind_host@ + ":"@
            + decimal(stopped.bind_port as nat),
{
    let mut r = String::from_str("PortMate: SSH ");
    push_mode_name(&mut r, stopped.mode);
    push_str(&mut r, " tunnel stopped on ");
    push_str(&mut r, stopped.bind_host.as_str());
    push_str(&mut r, ":");
    let p = u64_to_decimal(stopped.bind_port as u64);
    push_str(&mut r, p.as_str());
    r
}

/// The saved tunnels that a session restores when it connects: the enabled
/// tunnels of its profile, in saved order (none for a profile that is not
/// SSH-backed), or an error for an unknown session.
pub open spec fn enabled_tunnels(store: SessionStore, session_id: Seq<char>) -> Result<Seq<TunnelSpec>, Seq<char>> {
    match profile_index(store.profiles@, session_id) {
        None => Err("unknown session: "@ + session_id),
        Some(i) => Ok(
            match ssh_of(store.profiles@[i].connection) {
                Some(ssh) => ssh.tunnels@.filter(|t: TunnelSpec| t.enabled),
                None => Seq::empty(),
            },
        ),
    }
}

/// The enabled saved tunnels of the session's profile, in saved order. The
/// store is taken by value: the tunnels are moved out of it.
pub fn enabled_tunnel_specs(store: SessionStore, session_id: &str) -> (r: Result<Vec<TunnelSpec>, String>)
    ensures
        match enabled_tunnels(store, session_id@) {
            Ok(ts) => r matches Ok(v) && v@ == ts,
            Err(e) => r matches Err(t) && t@ == e,
        },
{
    let ghost orig_store = store;
    let mut profiles = store.profiles;
    let index = match find_profile(&profiles, session_id) {
        Some(i) => i,
        None => {
            let mut e = String::from_str("unknown session: ");
            push_str(&mut e, session_id);
            return Err(e);
        },
    };
    let profile = profiles.remove(index);
    assert(profile == orig_store.profiles@[index as int]);
    let tunnels = match profile.connection {
        ConnectionConfig::Ssh(ssh) => ssh.tunnels,
        ConnectionConfig::Tmux(ssh) => ssh.tunnels,
        _ => {
            return Ok(Vec::new());
        },
    };
    let ghost orig = tunnels@;
    let n = tunnels.len();
    let ghost p = |t: TunnelSpec| t.enabled;
    let mut rest = tunnels;
    let mut out: Vec<TunnelSpec> = Vec::new();
    let mut k: usize = 0;
    assert(orig.subrange(0, 0) =~= Seq::<TunnelSpec>::empty());
    assert(orig.subrange(0, orig.len() as int) =~= orig);
    while rest.len() > 0
        invariant
            k <= orig.len(),
            orig.len() == n,
            rest@ == orig.subrange(k as int, orig.len() as int),
            out@ == orig.subrange(0, k as int).filter(p),
            p == (|t: TunnelSpec| t.enabled),
        decreases rest@.len(),
    {
        let t = rest.remove(0);
        assert(t == orig[k as int]);
        assert(orig.subrange(0, k + 1) =~= orig.subrange(0, k as int).push(orig[k as int]));
        proof {
            orig.subrange(0, k as int).lemma_filter_push(orig[k as int], p);
        }
        if t.enabled {
            out.push(t);
        }
        k = k + 1;
        assert(rest@ =~= orig.subrange(k as int, orig.len() as int));
    }
    assert(orig.subrange(0, k as int) =~= orig);
    Ok(out)
}

/// Two SSH connections agree on everything but the saved tunnels.
pub open spec fn same_but_tunnels(a: SshConnection, b: SshConnection) -> bool {
    &&& a.identity_policy == b.identity_policy
    &&& a.agent_policy == b.agent_policy
    &&& a.identity_refs == b.identity_refs
    &&& a.host_key_policy == b.host_key_policy
    &&& a.trusted_host_keys == b.trusted_host_keys
    &&& a.reconnect == b.reconnect
    &&& a.reconnect_delay_ms == b.reconnect_delay_ms
}

/// The saved tunnels of a profile (none for one that is not SSH-backed).
pub open spec fn profile_tunnels(p: SessionProfile) -> Seq<TunnelSpec> {
    match ssh_of(p.connection) {
        Some(s) => s.tunnels@,
        None => seq![],
    }
}

/// `q` is `p` with the saved tunnels of an SSH connection replaced by
/// `tunnels`; a profile that is not SSH-backed stays as it is.
pub open spec fn tunnels_replaced(p: SessionProfile, q: SessionProfile, tunnels: Seq<TunnelSpec>) -> bool {
    q.id == p.id && match (p.connection, q.connection) {
        (ConnectionConfig::Ssh(a), ConnectionConfig::Ssh(b)) => same_but_tunnels(a, b) && b.tunnels@ == tunnels,
        (ConnectionConfig::Tmux(a), ConnectionConfig::Tmux(b)) => same_but_tunnels(a, b) && b.tunnels@ == tunnels,
        (ConnectionConfig::Shell, ConnectionConfig::Shell) => true,
        (ConnectionConfig::Other, ConnectionConfig::Other) => true,
        _ => false,
    }
}

fn stop_in_profile(profile: &mut SessionProfile, id: &str)
    ensures
        tunnels_replaced(*old(profile), *final(profile), stopped_tunnels(profile_tunnels(*old(profile)), id@)),
{
    match &mut profile.connection {
        ConnectionConfig::Ssh(s) => {
            mark_saved_tunnel_stopped(&mut s.tunnels, id);
        },
        ConnectionConfig::Tmux(s) => {
            mark_saved_tunnel_stopped(&mut s.tunnels, id);
        },
        _ => {},
    }
}

/// Records in the store that `stopped` no longer runs: the session's saved
/// tunnel with its id stays saved but disabled. Other profiles, and the
/// store when the session is unknown, stay as they are.
pub fn mark_tunnel_stopped_in_store(store: &mut SessionStore, session_id: &str, stopped: &TunnelSpec)
    ensures
        final(store).host_keys == old(store).host_keys,
        match profile_index(old(store).profiles@, session_id@) {
            Some(i) => {
                &&& final(store).profiles@.len() == old(store).profiles@.len()
                &&& forall|k: int|
                    0 <= k < old(store).profiles@.len() && k != i ==> #[trigger] final(store).profiles@[k]
                        == old(store).profiles@[k]
                &&& tunnels_replaced(
                    old(store).profiles@[i],
                    final(store).profiles@[i],
                    stopped_tunnels(profile_tunnels(old(store).profiles@[i]), stopped.id@),
                )
            },
            None => final(store).profiles@ == old(store).profiles@,
        },
{
    match find_profile(&store.profiles, session_id) {
        Some(i) => {
            stop_in_profile(&mut store.profiles[i], stopped.id.as_str());
        },
        None => {},
    }
}

} // verus!
