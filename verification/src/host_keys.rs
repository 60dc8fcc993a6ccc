//! Host key trust: matching an observed server key against trusted keys,
//! keeping the copies that profiles mirror in step with the store, and the
//! message that explains a rejected key.
use vstd::prelude::*;
use crate::profile::{
    ConnectionConfig, HostKeyPolicy, HostKeyScope, SessionProfile, SessionStore, SshConnection,
    TrustedHostKey, find_profile, profile_index, ssh_of,
};
use crate::text::{decimal, opt_view, push_char, push_str, str_eq, u64_to_decimal};

verus! {

/// A server host key seen during a handshake, with the values that the
/// trust logic reads: the alias it is trusted under for the profile's
/// policy, and its SHA-256 fingerprint (or why that could not be computed).
#[derive(Debug)]
pub struct HostKeyObservation {
    pub host: String,
    pub port: u16,
    pub algorithm: String,
    pub public_key_base64: String,
    pub target_alias: String,
    pub fingerprint_sha256: Result<String, String>,
}

/// How the trusted keys judge an observation.
#[derive(Clone, Debug)]
pub enum HostKeyEvaluation {
    Trusted { matched_key_id: String, fingerprint_sha256: String },
    Unknown { alias: String, port: u16, algorithm: String, fingerprint_sha256: String },
    Mismatch {
        alias: String,
        port: u16,
        algorithm: String,
        expected: Vec<TrustedHostKey>,
        observed_fingerprint_sha256: String,
    },
}

/// A persistent trusted key vouches for the observation: same alias, port,
/// algorithm and fingerprint, same host when the policy checks addresses,
/// and a scope that covers the profile.
pub open spec fn key_matches_observation(
    key: TrustedHostKey,
    profile_id: Seq<char>,
    policy: HostKeyPolicy,
    observation: HostKeyObservation,
    alias: Seq<char>,
    fingerprint: Seq<char>,
) -> bool {
    &&& key.alias@ == alias
    &&& key.port == observation.port
    &&& (!policy.check_ip || key.host@ == observation.host@)
    &&& key.algorithm@ == observation.algorithm@
    &&& key.fingerprint_sha256@ == fingerprint
    &&& match key.scope {
        HostKeyScope::Profile => opt_view(key.profile_id) == Some(profile_id),
        HostKeyScope::Project => policy.trust_scope == HostKeyScope::Project || policy.trust_scope
            == HostKeyScope::Profile,
        HostKeyScope::User => true,
    }
}

fn opt_str_eq(o: &Option<String>, s: &str) -> (r: bool)
    ensures
        r == (opt_view(*o) == Some(s@)),
{
    match o {
        Some(v) => str_eq(v.as_str(), s),
        None => false,
    }
}

pub fn persistent_host_key_matches_observation(
    key: &TrustedHostKey,
    profile_id: &str,
    policy: &HostKeyPolicy,
    observation: &HostKeyObservation,
    alias: &str,
    fingerprint: &str,
) -> (r: bool)
    ensures
        r == key_matches_observation(*key, profile_id@, *policy, *observation, alias@, fingerprint@),
{
    let scope_ok = match key.scope {
        HostKeyScope::Profile => opt_str_eq(&key.profile_id, profile_id),
        HostKeyScope::Project => match policy.trust_scope {
            HostKeyScope::Project | HostKeyScope::Profile => true,
            HostKeyScope::User => false,
        },
        HostKeyScope::User => true,
    };
    str_eq(key.alias.as_str(), alias) && key.port == observation.port && (!policy.check_ip
        || str_eq(key.host.as_str(), observation.host.as_str())) && str_eq(
        key.algorithm.as_str(),
        observation.algorithm.as_str(),
    ) && str_eq(key.fingerprint_sha256.as_str(), fingerprint) && scope_ok
}

/// A key trusted for one connection covers the observation exactly.
pub open spec fn one_time_key_covers(
    key: TrustedHostKey,
    profile_id: Seq<char>,
    observation: HostKeyObservation,
    fingerprint: Seq<char>,
) -> bool {
    &&& opt_view(key.profile_id) == Some(profile_id)
    &&& key.alias@ == observation.target_alias@
    &&& key.host@ == observation.host@
    &&& key.port == observation.port
    &&& key.algorithm@ == observation.algorithm@
    &&& key.fingerprint_sha256@ == fingerprint
}

pub open spec fn one_time_trusts(
    keys: Seq<TrustedHostKey>,
    profile_id: Seq<char>,
    observation: HostKeyObservation,
) -> bool {
    match observation.fingerprint_sha256 {
        Ok(f) => exists|i: int| 0 <= i < keys.len() && one_time_key_covers(#[trigger] keys[i], profile_id, observation, f@),
        Err(_) => false,
    }
}

/// Whether a key trusted for this connection only covers the observation.
pub fn one_time_trusts_observation(
    one_time_host_keys: &[TrustedHostKey],
    profile_id: &str,
    policy: &HostKeyPolicy,
    observation: &HostKeyObservation,
) -> (r: bool)
    ensures
        r == one_time_trusts(one_time_host_keys@, profile_id@, *observation),
{
    let fingerprint = match &observation.fingerprint_sha256 {
        Ok(f) => f,
        Err(_) => return false,
    };
    let mut i: usize = 0;
    while i < one_time_host_keys.len()
        invariant
            i <= one_time_host_keys@.len(),
            observation.fingerprint_sha256 == Ok::<String, String>(*fingerprint),
            forall|k: int| 0 <= k < i ==> !one_time_key_covers(#[trigger] one_time_host_keys@[k], profile_id@, *observation, fingerprint@),
        decreases one_time_host_keys@.len() - i,
    {
        let key = &one_time_host_keys[i];
        if opt_str_eq(&key.profile_id, profile_id) && str_eq(key.alias.as_str(), observation.target_alias.as_str())
            && str_eq(key.host.as_str(), observation.host.as_str()) && key.port == observation.port
            && str_eq(key.algorithm.as_str(), observation.algorithm.as_str()) && str_eq(
            key.fingerprint_sha256.as_str(),
            fingerprint.as_str(),
        ) {
            assert(one_time_key_covers(one_time_host_keys@[i as int], profile_id@, *observation, fingerprint@));
            return true;
        }
        i = i + 1;
    }
    false
}

/// The profile's own mirrored keys vouch for the observation.
pub open spec fn profile_trusts(store: SessionStore, profile_id: Seq<char>, observation: HostKeyObservation) -> bool {
    match profile_index(store.profiles@, profile_id) {
        None => false,
        Some(i) => match ssh_of(store.profiles@[i].connection) {
            None => false,
            Some(ssh) => match observation.fingerprint_sha256 {
                Err(_) => false,
                Ok(f) => exists|k: int| 0 <= k < ssh.trusted_host_keys@.len() && key_matches_observation(
                    #[trigger] ssh.trusted_host_keys@[k],
                    profile_id,
                    ssh.host_key_policy,
                    observation,
                    observation.target_alias@,
                    f@,
                ),
            },
        },
    }
}

pub(crate) fn ssh_ref(c: &ConnectionConfig) -> (r: Option<&SshConnection>)
    ensures
        match ssh_of(*c) {
            Some(s) => r == Some(&s),
            None => r is None,
        },
{
    match c {
        ConnectionConfig::Ssh(s) => Some(s),
        ConnectionConfig::Tmux(s) => Some(s),
        _ => None,
    }
}

/// Whether the keys mirrored in the profile vouch for the observation.
pub fn profile_trusts_observation(
    store: &SessionStore,
    profile_id: &str,
    observation: &HostKeyObservation,
) -> (r: bool)
    ensures
        r == profile_trusts(*store, profile_id@, *observation),
{
    let index = match find_profile(&store.profiles, profile_id) {
        Some(i) => i,
        None => return false,
    };
    let ssh = match ssh_ref(&store.profiles[index].connection) {
        Some(s) => s,
        None => return false,
    };
    let fingerprint = match &observation.fingerprint_sha256 {
        Ok(f) => f,
        Err(_) => return false,
    };
    let keys = &ssh.trusted_host_keys;
    let mut k: usize = 0;
    while k < keys.len()
        invariant
            k <= keys@.len(),
            index < store.profiles@.len(),
            profile_index(store.profiles@, profile_id@) == Some(index as int),
            ssh_of(store.profiles@[index as int].connection) == Some(*ssh),
            observation.fingerprint_sha256 == Ok::<String, String>(*fingerprint),
            keys == &ssh.trusted_host_keys,
            forall|j: int| 0 <= j < k ==> !key_matches_observation(#[trigger] keys@[j], profile_id@, ssh.host_key_policy, *observation, observation.target_alias@, fingerprint@),
        decreases keys@.len() - k,
    {
        if persistent_host_key_matches_observation(
            &keys[k],
            profile_id,
            &ssh.host_key_policy,
            observation,
            observation.target_alias.as_str(),
            fingerprint.as_str(),
        ) {
            return true;
        }
        k = k + 1;
    }
    false
}

/// A field-for-field copy of a host key.
pub fn copy_host_key(k: &TrustedHostKey) -> (r: TrustedHostKey)
    ensures
        r == *k,
{
    TrustedHostKey {
        id: k.id.clone(),
        profile_id: copy_opt(&k.profile_id),
        alias: k.alias.clone(),
        host: k.host.clone(),
        port: k.port,
        algorithm: k.algorithm.clone(),
        fingerprint_sha256: k.fingerprint_sha256.clone(),
        public_key_base64: k.public_key_base64.clone(),
        scope: k.scope,
        label: copy_opt(&k.label),
        first_seen: k.first_seen,
        last_seen: k.last_seen,
    }
}

fn copy_opt(o: &Option<String>) -> (r: Option<String>)
    ensures
        r == *o,
{
    match o {
        Some(s) => Some(s.clone()),
        None => None,
    }
}

/// The key's id is one of `ids`.
pub open spec fn id_listed(id: Seq<char>, ids: Seq<String>) -> bool {
    exists|j: int| 0 <= j < ids.len() && (#[trigger] ids[j])@ == id
}

/// `keys` without those whose id is listed, in order.
pub open spec fn keys_without(keys: Seq<TrustedHostKey>, ids: Seq<String>) -> Seq<TrustedHostKey>
    decreases keys.len(),
{
    if keys.len() == 0 {
        seq![]
    } else {
        keys_without(keys.drop_last(), ids) + if id_listed(keys.last().id@, ids) {
            seq![]
        } else {
            seq![keys.last()]
        }
    }
}

pub(crate) fn id_in(id: &str, ids: &[String]) -> (r: bool)
    ensures
        r == id_listed(id@, ids@),
{
    let mut j: usize = 0;
    while j < ids.len()
        invariant
            j <= ids@.len(),
            forall|k: int| 0 <= k < j ==> (#[trigger] ids@[k])@ != id@,
        decreases ids@.len() - j,
    {
        if str_eq(ids[j].as_str(), id) {
            return true;
        }
        j = j + 1;
    }
    false
}

pub(crate) fn retain_keys_not_in(keys: &Vec<TrustedHostKey>, ids: &[String]) -> (r: Vec<TrustedHostKey>)
    ensures
        r@ == keys_without(keys@, ids@),
{
    let mut out: Vec<TrustedHostKey> = Vec::new();
    let mut i: usize = 0;
    while i < keys.len()
        invariant
            i <= keys@.len(),
            out@ == keys_without(keys@.subrange(0, i as int), ids@),
        decreases keys@.len() - i,
    {
        proof {
            assert(keys@.subrange(0, i + 1).drop_last() =~= keys@.subrange(0, i as int));
        }
        if !id_in(keys[i].id.as_str(), ids) {
            out.push(copy_host_key(&keys[i]));
        }
        i = i + 1;
        assert(out@ =~= keys_without(keys@.subrange(0, i as int), ids@));
    }
    assert(keys@.subrange(0, keys@.len() as int) =~= keys@);
    out
}

/// Two SSH connections agree on everything but the mirrored host keys.
pub open spec fn same_but_keys(a: SshConnection, b: SshConnection) -> bool {
    &&& a.identity_policy == b.identity_policy
    &&& a.agent_policy == b.agent_policy
    &&& a.identity_refs == b.identity_refs
    &&& a.host_key_policy == b.host_key_policy
    &&& a.tunnels == b.tunnels
    &&& a.reconnect == b.reconnect
    &&& a.reconnect_delay_ms == b.reconnect_delay_ms
}

/// `q` is `p` with the mirrored host keys of an SSH connection replaced by
/// `keys`; other profiles are unchanged.
pub open spec fn keys_replaced(p: SessionProfile, q: SessionProfile, keys: Seq<TrustedHostKey>) -> bool {
    q.id == p.id && match (p.connection, q.connection) {
        (ConnectionConfig::Ssh(a), ConnectionConfig::Ssh(b)) => same_but_keys(a, b) && b.trusted_host_keys@ == keys,
        (ConnectionConfig::Tmux(a), ConnectionConfig::Tmux(b)) => same_but_keys(a, b) && b.trusted_host_keys@ == keys,
        (ConnectionConfig::Shell, ConnectionConfig::Shell) => true,
        (ConnectionConfig::Other, ConnectionConfig::Other) => true,
        _ => false,
    }
}

pub(crate) fn set_profile_keys(profile: &mut SessionProfile, keys: Vec<TrustedHostKey>)
    ensures
        keys_replaced(*old(profile), *final(profile), keys@),
{
    match &mut profile.connection {
        ConnectionConfig::Ssh(s) => {
            s.trusted_host_keys = keys;
        },
        ConnectionConfig::Tmux(s) => {
            s.trusted_host_keys = keys;
        },
        _ => {},
    }
}

/// The mirrored host keys of a profile (empty for other connections).
pub open spec fn profile_keys(p: SessionProfile) -> Seq<TrustedHostKey> {
    match ssh_of(p.connection) {
        Some(s) => s.trusted_host_keys@,
        None => seq![],
    }
}

pub(crate) fn profile_keys_ref(p: &SessionProfile) -> (r: Option<&Vec<TrustedHostKey>>)
    ensures
        match ssh_of(p.connection) {
            Some(s) => r == Some(&s.trusted_host_keys),
            None => r is None,
        },
{
    match &p.connection {
        ConnectionConfig::Ssh(s) => Some(&s.trusted_host_keys),
        ConnectionConfig::Tmux(s) => Some(&s.trusted_host_keys),
        _ => None,
    }
}

/// `b` is `a` with the listed keys removed from the store and from every
/// profile.
pub open spec fn deleted_from(a: SessionStore, ids: Seq<String>, b: SessionStore) -> bool {
    &&& b.host_keys@ == keys_without(a.host_keys@, ids)
    &&& b.profiles@.len() == a.profiles@.len()
    &&& forall|i: int| 0 <= i < a.profiles@.len() ==> keys_replaced(
        #[trigger] a.profiles@[i],
        b.profiles@[i],
        keys_without(profile_keys(a.profiles@[i]), ids),
    )
}

pub proof fn lemma_keys_without(keys: Seq<TrustedHostKey>, ids: Seq<String>)
    ensures
        forall|j: int| 0 <= j < keys_without(keys, ids).len() ==> !id_listed(
            (#[trigger] keys_without(keys, ids)[j]).id@,
            ids,
        ),
        forall|j: int| 0 <= j < keys.len() && !id_listed((#[trigger] keys[j]).id@, ids) ==> keys_without(
            keys,
            ids,
        ).contains(keys[j]),
    decreases keys.len(),
{
    if keys.len() > 0 {
        let front = keys.drop_last();
        lemma_keys_without(front, ids);
        let r = keys_without(keys, ids);
        let p = keys_without(front, ids);
        assert forall|j: int| 0 <= j < r.len() implies !id_listed((#[trigger] r[j]).id@, ids) by {
            if j < p.len() {
                assert(r[j] == p[j]);
            }
        }
        assert forall|j: int| 0 <= j < keys.len() && !id_listed((#[trigger] keys[j]).id@, ids) implies r.contains(keys[j]) by {
            if j < keys.len() - 1 {
                assert(front[j] == keys[j]);
                let k = choose|k: int| 0 <= k < p.len() && p[k] == keys[j];
                assert(r[k] == p[k]);
            } else {
                assert(r[r.len() - 1] == keys.last());
            }
        }
    }
}

/// Deleting host keys leaves no key with a deleted id, neither in the store
/// nor in any profile, and keeps every other key of the store.
pub proof fn lemma_deleted_keys_are_gone(a: SessionStore, ids: Seq<String>, b: SessionStore)
    requires
        deleted_from(a, ids, b),
    ensures
        forall|j: int| 0 <= j < b.host_keys@.len() ==> !id_listed((#[trigger] b.host_keys@[j]).id@, ids),
        forall|j: int| 0 <= j < a.host_keys@.len() && !id_listed((#[trigger] a.host_keys@[j]).id@, ids)
            ==> b.host_keys@.contains(a.host_keys@[j]),
        forall|i: int, j: int|
            0 <= i < b.profiles@.len() && 0 <= j < profile_keys(b.profiles@[i]).len() ==> !id_listed(
                (#[trigger] profile_keys(#[trigger] b.profiles@[i])[j]).id@,
                ids,
            ),
{
    lemma_keys_without(a.host_keys@, ids);
    assert forall|i: int, j: int|
        0 <= i < b.profiles@.len() && 0 <= j < profile_keys(b.profiles@[i]).len() implies !id_listed(
            (#[trigger] profile_keys(#[trigger] b.profiles@[i])[j]).id@,
            ids,
        ) by {
        assert(keys_replaced(a.profiles@[i], b.profiles@[i], keys_without(profile_keys(a.profiles@[i]), ids)));
        lemma_keys_without(profile_keys(a.profiles@[i]), ids);
    }
}

/// Removes the listed host keys from the store and from every profile that
/// mirrors them; returns the remaining store keys.
pub fn delete_host_keys_from_store(store: &mut SessionStore, key_ids: &[String]) -> (r: Vec<TrustedHostKey>)
    ensures
        deleted_from(*old(store), key_ids@, *final(store)),
        r@ == final(store).host_keys@,
{
    let kept = retain_keys_not_in(&store.host_keys, key_ids);
    store.host_keys = kept;
    let ghost old_profiles = store.profiles@;
    let mut i: usize = 0;
    while i < store.profiles.len()
        invariant
            i <= store.profiles@.len(),
            store.profiles@.len() == old_profiles.len(),
            store.host_keys@ == keys_without(old(store).host_keys@, key_ids@),
            old_profiles == old(store).profiles@,
            forall|k: int| 0 <= k < i ==> keys_replaced(#[trigger] old_profiles[k], store.profiles@[k], keys_without(profile_keys(old_profiles[k]), key_ids@)),
            forall|k: int| i <= k < store.profiles@.len() ==> #[trigger] store.profiles@[k] == old_profiles[k],
        decreases store.profiles@.len() - i,
    {
        let filtered = match profile_keys_ref(&store.profiles[i]) {
            Some(keys) => Some(retain_keys_not_in(keys, key_ids)),
            None => None,
        };
        match filtered {
            Some(keys) => {
                set_profile_keys(&mut store.profiles[i], keys);
            },
            None => {
                proof {
                    assert(keys_replaced(old_profiles[i as int], store.profiles@[i as int], seq![]));
                }
            },
        }
        i = i + 1;
    }
    copy_keys(&store.host_keys)
}

/// A copy of a list of host keys.
pub fn copy_keys(keys: &Vec<TrustedHostKey>) -> (r: Vec<TrustedHostKey>)
    ensures
        r@ == keys@,
{
    let mut out: Vec<TrustedHostKey> = Vec::new();
    let mut i: usize = 0;
    while i < keys.len()
        invariant
            i <= keys@.len(),
            out@ == keys@.subrange(0, i as int),
        decreases keys@.len() - i,
    {
        out.push(copy_host_key(&keys[i]));
        i = i + 1;
        assert(out@ =~= keys@.subrange(0, i as int));
    }
    assert(keys@.subrange(0, keys@.len() as int) =~= keys@);
    out
}

/// Copies the user-editable fields of `source` onto `target`.
pub fn apply_host_key_editable_fields(target: &mut TrustedHostKey, source: &TrustedHostKey)
    ensures
        *final(target) == (TrustedHostKey {
            profile_id: source.profile_id,
            alias: source.alias,
            host: source.host,
            port: source.port,
            scope: source.scope,
            label: source.label,
            ..*old(target)
        }),
{
    target.profile_id = copy_opt(&source.profile_id);
    target.alias = source.alias.clone();
    target.host = source.host.clone();
    target.port = source.port;
    target.scope = source.scope;
    target.label = copy_opt(&source.label);
}

/// A profile of the store has the id.
pub open spec fn session_exists(store: SessionStore, id: Seq<char>) -> bool {
    profile_index(store.profiles@, id) is Some
}

/// The key stays after loading: it is not scoped to a profile, or its
/// profile exists.
pub open spec fn key_kept_on_load(store: SessionStore, k: TrustedHostKey) -> bool {
    k.scope != HostKeyScope::Profile || (k.profile_id matches Some(p) && session_exists(store, p@))
}

/// The key once loaded: a reference to a profile that does not exist is
/// dropped.
pub open spec fn key_on_load(store: SessionStore, k: TrustedHostKey) -> TrustedHostKey {
    match k.profile_id {
        Some(p) => if session_exists(store, p@) {
            k
        } else {
            TrustedHostKey { profile_id: None, ..k }
        },
        None => k,
    }
}

/// The store's keys after loading.
pub open spec fn keys_on_load(store: SessionStore, keys: Seq<TrustedHostKey>) -> Seq<TrustedHostKey>
    decreases keys.len(),
{
    if keys.len() == 0 {
        seq![]
    } else {
        keys_on_load(store, keys.drop_last()) + if key_kept_on_load(store, keys.last()) {
            seq![key_on_load(store, keys.last())]
        } else {
            seq![]
        }
    }
}

/// Drops the host keys of profiles that no longer exist from a loaded
/// store, and forgets the profile of every other key that names a missing
/// one.
pub fn prune_orphaned_host_keys(store: &mut SessionStore)
    ensures
        final(store).profiles == old(store).profiles,
        final(store).host_keys@ == keys_on_load(*old(store), old(store).host_keys@),
{
    let ghost start = *store;
    let mut kept: Vec<TrustedHostKey> = Vec::new();
    let mut i: usize = 0;
    while i < store.host_keys.len()
        invariant
            i <= store.host_keys@.len(),
            *store == start,
            kept@ == keys_on_load(start, start.host_keys@.subrange(0, i as int)),
        decreases store.host_keys@.len() - i,
    {
        assert(start.host_keys@.subrange(0, i + 1).drop_last() =~= start.host_keys@.subrange(0, i as int));
        let k = &store.host_keys[i];
        let exists = match &k.profile_id {
            Some(p) => find_profile(&store.profiles, p.as_str()).is_some(),
            None => false,
        };
        let keep = match k.scope {
            HostKeyScope::Profile => exists,
            _ => true,
        };
        if keep {
            let mut copy = copy_host_key(k);
            if k.profile_id.is_some() && !exists {
                copy.profile_id = None;
            }
            kept.push(copy);
        }
        i = i + 1;
    }
    assert(start.host_keys@.subrange(0, i as int) =~= start.host_keys@);
    store.host_keys = kept;
}

} // verus!

verus! {

/// Which trusted keys vouch for an observation that they agree with in
/// alias, port, host, algorithm and fingerprint: a user-wide key always; a
/// project key while the policy trusts project or profile keys; a profile
/// key only for its own profile. The policy's trust scope matters only for
/// project keys, and the profile only for profile keys. A key that differs
/// in alias, port, algorithm or fingerprint, or in host when the policy
/// checks addresses, never vouches.
pub proof fn lemma_host_key_scopes(
    key: TrustedHostKey,
    profile_id: Seq<char>,
    policy: HostKeyPolicy,
    observation: HostKeyObservation,
    alias: Seq<char>,
    fingerprint: Seq<char>,
)
    ensures
        key_matches_observation(key, profile_id, policy, observation, alias, fingerprint) ==> {
            &&& key.alias@ == alias
            &&& key.port == observation.port
            &&& key.algorithm@ == observation.algorithm@
            &&& key.fingerprint_sha256@ == fingerprint
            &&& policy.check_ip ==> key.host@ == observation.host@
        },
        ({
            &&& key.alias@ == alias
            &&& key.port == observation.port
            &&& key.host@ == observation.host@
            &&& key.algorithm@ == observation.algorithm@
            &&& key.fingerprint_sha256@ == fingerprint
        }) ==> {
            &&& key.scope == HostKeyScope::User ==> key_matches_observation(
                key,
                profile_id,
                policy,
                observation,
                alias,
                fingerprint,
            )
            &&& key.scope == HostKeyScope::Project ==> (key_matches_observation(
                key,
                profile_id,
                policy,
                observation,
                alias,
                fingerprint,
            ) <==> (policy.trust_scope == HostKeyScope::Project || policy.trust_scope
                == HostKeyScope::Profile))
            &&& key.scope == HostKeyScope::Profile ==> (key_matches_observation(
                key,
                profile_id,
                policy,
                observation,
                alias,
                fingerprint,
            ) <==> opt_view(key.profile_id) == Some(profile_id))
        },
{
}

/// Relaxing the address check never loses a match, and the match of a key
/// that is not a project key does not depend on the policy's trust scope.
pub proof fn lemma_host_key_policy_relaxed(
    key: TrustedHostKey,
    profile_id: Seq<char>,
    policy: HostKeyPolicy,
    other: HostKeyPolicy,
    observation: HostKeyObservation,
    alias: Seq<char>,
    fingerprint: Seq<char>,
)
    ensures
        key_matches_observation(key, profile_id, policy, observation, alias, fingerprint) && !other.check_ip
            && other.trust_scope == policy.trust_scope ==> key_matches_observation(
            key,
            profile_id,
            other,
            observation,
            alias,
            fingerprint,
        ),
        key.scope != HostKeyScope::Project && other.check_ip == policy.check_ip ==> (key_matches_observation(
            key,
            profile_id,
            policy,
            observation,
            alias,
            fingerprint,
        ) == key_matches_observation(key, profile_id, other, observation, alias, fingerprint)),
{
}

} // verus!
