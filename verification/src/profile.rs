//! The parts of a saved session profile and of the session store that the
//! connection, host-key and tunnel logic reads and writes.
use vstd::prelude::*;
use crate::identity::{AgentPolicy, IdentityPolicy, IdentityRef};

verus! {

/// Which profiles a trusted host key applies to.
#[derive(Clone, Copy, Debug, PartialEq, Eq, Structural)]
pub enum HostKeyScope {
    Profile,
    Project,
    User,
}

/// How unknown host keys are treated.
#[derive(Clone, Copy, Debug, PartialEq, Eq, Structural)]
pub enum HostKeyMode {
    TrustOnFirstUse,
    AskEveryTime,
}

/// The host key policy of an SSH profile.
#[derive(Clone, Copy, Debug, PartialEq, Eq, Structural)]
pub struct HostKeyPolicy {
    pub mode: HostKeyMode,
    pub check_ip: bool,
    pub trust_scope: HostKeyScope,
}

/// A host key that the user trusts. Times are milliseconds since the epoch.
#[derive(Clone, Debug)]
pub struct TrustedHostKey {
    pub id: String,
    pub profile_id: Option<String>,
    pub alias: String,
    pub host: String,
    pub port: u16,
    pub algorithm: String,
    pub fingerprint_sha256: String,
    pub public_key_base64: String,
    pub scope: HostKeyScope,
    pub label: Option<String>,
    pub first_seen: i64,
    pub last_seen: i64,
}

/// Direction of a tunnel.
#[derive(Clone, Copy, Debug, PartialEq, Eq, Structural)]
pub enum TunnelMode {
    Local,
    Remote,
    Dynamic,
}

/// Where a tunnel's traffic leaves: through SSH or from this host.
#[derive(Clone, Copy, Debug, PartialEq, Eq, Structural)]
pub enum TunnelEgress {
    Ssh,
    PortmateHost,
}

/// One routing rule of a dynamic (SOCKS5) tunnel.
#[derive(Clone, Debug)]
pub struct TunnelRouteRule {
    pub host: String,
}

/// A saved tunnel.
#[derive(Clone, Debug)]
pub struct TunnelSpec {
    pub id: String,
    pub label: String,
    pub egress: TunnelEgress,
    pub mode: TunnelMode,
    pub bind_host: String,
    pub bind_port: u16,
    pub target_host: String,
    pub target_port: u16,
    pub route_rules: Vec<TunnelRouteRule>,
    pub enabled: bool,
}

/// The SSH part of a profile.
#[derive(Clone, Debug)]
pub struct SshConnection {
    pub identity_policy: IdentityPolicy,
    pub agent_policy: AgentPolicy,
    pub identity_refs: Vec<IdentityRef>,
    pub host_key_policy: HostKeyPolicy,
    pub trusted_host_keys: Vec<TrustedHostKey>,
    pub tunnels: Vec<TunnelSpec>,
    pub reconnect: bool,
    pub reconnect_delay_ms: u64,
}

/// How a profile connects.
#[derive(Clone, Debug)]
pub enum ConnectionConfig {
    Ssh(SshConnection),
    Tmux(SshConnection),
    Shell,
    Other,
}

/// A saved session profile.
#[derive(Clone, Debug)]
pub struct SessionProfile {
    pub id: String,
    pub connection: ConnectionConfig,
}

/// The SSH connection of an SSH- or tmux-backed connection.
pub open spec fn ssh_of(c: ConnectionConfig) -> Option<SshConnection> {
    match c {
        ConnectionConfig::Ssh(s) => Some(s),
        ConnectionConfig::Tmux(s) => Some(s),
        _ => None,
    }
}

/// The trusted host keys of the store and the profiles.
#[derive(Clone, Debug)]
pub struct SessionStore {
    pub profiles: Vec<SessionProfile>,
    pub host_keys: Vec<TrustedHostKey>,
}

/// The position of the profile with the given id.
pub open spec fn profile_index(profiles: Seq<SessionProfile>, id: Seq<char>) -> Option<int>
    decreases profiles.len(),
{
    if profiles.len() == 0 {
        None
    } else {
        match profile_index(profiles.drop_last(), id) {
            Some(i) => Some(i),
            None => if profiles.last().id@ == id {
                Some(profiles.len() - 1)
            } else {
                None
            },
        }
    }
}

pub proof fn lemma_profile_index(profiles: Seq<SessionProfile>, id: Seq<char>)
    ensures
        match profile_index(profiles, id) {
            Some(i) => 0 <= i < profiles.len() && profiles[i].id@ == id && forall|k: int|
                0 <= k < i ==> (#[trigger] profiles[k]).id@ != id,
            None => forall|k: int| 0 <= k < profiles.len() ==> (#[trigger] profiles[k]).id@ != id,
        },
    decreases profiles.len(),
{
    if profiles.len() > 0 {
        lemma_profile_index(profiles.drop_last(), id);
        assert forall|k: int| 0 <= k < profiles.len() - 1 implies profiles[k] == profiles.drop_last()[k] by {}
    }
}

/// Finds the profile with the given id.
pub fn find_profile(profiles: &Vec<SessionProfile>, id: &str) -> (r: Option<usize>)
    ensures
        match profile_index(profiles@, id@) {
            Some(i) => r == Some(i as usize),
            None => r is None,
        },
        r matches Some(k) ==> k < profiles@.len() && profile_index(profiles@, id@) == Some(k as int),
{
    proof {
        lemma_profile_index(profiles@, id@);
    }
    let mut i: usize = 0;
    while i < profiles.len()
        invariant
            i <= profiles@.len(),
            forall|k: int| 0 <= k < i ==> (#[trigger] profiles@[k]).id@ != id@,
        decreases profiles@.len() - i,
    {
        if crate::text::str_eq(profiles[i].id.as_str(), id) {
            proof {
                lemma_profile_index(profiles@, id@);
            }
            return Some(i);
        }
        i = i + 1;
    }
    None
}

} // verus!
