//! Changes to the trusted host keys of the session store: editing a key,
//! marking keys as seen again, copying keys into the profiles they belong
//! to, and what happens to an observed server key after a handshake.
use vstd::prelude::*;
use crate::host_keys::{
    HostKeyEvaluation, HostKeyObservation, apply_host_key_editable_fields, copy_host_key,
    key_matches_observation, keys_replaced, profile_keys, same_but_keys,
};
use crate::profile::{
    ConnectionConfig, HostKeyPolicy, HostKeyScope, SessionProfile, SessionStore, SshConnection, TrustedHostKey,
    find_profile, profile_index, ssh_of,
};
use crate::text::{decimal, opt_view, push_str, str_eq, trim, trim_string, u64_to_decimal};

verus! {

/// The fingerprints of `keys`, joined by `, `.
pub open spec fn joined_fingerprints(keys: Seq<TrustedHostKey>) -> Seq<char>
    decreases keys.len(),
{
    if keys.len() == 0 {
        seq![]
    } else if keys.len() == 1 {
        keys[0].fingerprint_sha256@
    } else {
        joined_fingerprints(keys.drop_last()) + ", "@ + keys.last().fingerprint_sha256@
    }
}

/// The message that explains why a host key was not accepted.
pub open spec fn rejection_text(e: HostKeyEvaluation) -> Seq<char> {
    match e {
        HostKeyEvaluation::Trusted { .. } => "SSH host key 已受信任"@,
        HostKeyEvaluation::Unknown { alias, port, algorithm, fingerprint_sha256 } =>
            "SSH host key 未受信任: alias="@ + alias@ + ":"@ + decimal(port as nat) + ", algorithm="@
            + algorithm@ + ", fingerprint="@ + fingerprint_sha256@,
        HostKeyEvaluation::Mismatch {
            alias,
            port,
            algorithm,
            expected,
            observed_fingerprint_sha256,
        } => "SSH host key 已变化，已阻断: alias="@ + alias@ + ":"@ + decimal(port as nat)
            + ", algorithm="@ + algorithm@ + ", observed="@ + observed_fingerprint_sha256@
            + ", expected=["@ + joined_fingerprints(expected@) + "]"@,
    }
}

fn join_fingerprints(keys: &Vec<TrustedHostKey>) -> (r: String)
    ensures
        r@ == joined_fingerprints(keys@),
{
    let mut s = String::new();
    let mut i: usize = 0;
    while i < keys.len()
        invariant
            i <= keys@.len(),
            s@ == joined_fingerprints(keys@.take(i as int)),
        decreases keys@.len() - i,
    {
        proof {
            assert(keys@.take(i + 1).drop_last() =~= keys@.take(i as int));
        }
        if i > 0 {
            push_str(&mut s, ", ");
        }
        push_str(&mut s, keys[i].fingerprint_sha256.as_str());
        i = i + 1;
    }
    assert(keys@.take(keys@.len() as int) =~= keys@);
    s
}

/// Explains a host key evaluation to the user.
pub fn describe_host_key_rejection(evaluation: &HostKeyEvaluation) -> (r: String)
    ensures
        r@ == rejection_text(*evaluation),
{
    match evaluation {
        HostKeyEvaluation::Trusted { .. } => String::from_str("SSH host key 已受信任"),
        HostKeyEvaluation::Unknown { alias, port, algorithm, fingerprint_sha256 } => {
            let mut s = String::from_str("SSH host key 未受信任: alias=");
            push_str(&mut s, alias.as_str());
            push_str(&mut s, ":");
            let p = u64_to_decimal(*port as u64);
            push_str(&mut s, p.as_str());
            push_str(&mut s, ", algorithm=");
            push_str(&mut s, algorithm.as_str());
            push_str(&mut s, ", fingerprint=");
            push_str(&mut s, fingerprint_sha256.as_str());
            s
        },
        HostKeyEvaluation::Mismatch {
            alias,
            port,
            algorithm,
            expected,
            observed_fingerprint_sha256,
        } => {
            let joined = join_fingerprints(expected);
            let mut s = String::from_str("SSH host key 已变化，已阻断: alias=");
            push_str(&mut s, alias.as_str());
            push_str(&mut s, ":");
            let p = u64_to_decimal(*port as u64);
            push_str(&mut s, p.as_str());
            push_str(&mut s, ", algorithm=");
            push_str(&mut s, algorithm.as_str());
            push_str(&mut s, ", observed=");
            push_str(&mut s, observed_fingerprint_sha256.as_str());
            push_str(&mut s, ", expected=[");
            push_str(&mut s, joined.as_str());
            push_str(&mut s, "]");
            s
        },
    }
}

/// The connection of a profile as a host key scan depends on it: its
/// mirrored host keys left out. Refused for profiles that are not SSH.
pub fn host_key_scan_connection_snapshot(profile: SessionProfile) -> (r: Result<
    ConnectionConfig,
    String,
>)
    ensures
        r is Ok <==> ssh_of(profile.connection) is Some,
        r matches Err(e) ==> e@ == "profile is not SSH-backed: "@ + profile.id@,
        r matches Ok(c) ==> keys_replaced(
            profile,
            SessionProfile { id: profile.id, connection: c },
            seq![],
        ),
{
    let mut connection = profile.connection;
    match &mut connection {
        ConnectionConfig::Ssh(ssh) => {
            ssh.trusted_host_keys = Vec::new();
        },
        ConnectionConfig::Tmux(ssh) => {
            ssh.trusted_host_keys = Vec::new();
        },
        _ => {
            let mut e = String::from_str("profile is not SSH-backed: ");
            push_str(&mut e, profile.id.as_str());
            return Err(e);
        },
    }
    Ok(connection)
}

/// A request to edit the user-editable fields of a trusted host key;
/// `expected_key` is the key as the editor last saw it.
#[derive(Debug)]
pub struct HostKeyUpdateRequest {
    pub key_id: String,
    pub expected_key: TrustedHostKey,
    pub alias: String,
    pub host: String,
    pub port: u16,
    pub profile_id: Option<String>,
    pub scope: HostKeyScope,
    pub label: Option<String>,
}

/// The optional text trimmed, and none when nothing is left.
pub open spec fn trimmed_nonempty(o: Option<String>) -> Option<Seq<char>> {
    match o {
        Some(s) => if trim(s@).len() > 0 {
            Some(trim(s@))
        } else {
            None
        },
        None => None,
    }
}

/// The position of the first key with the given id.
pub open spec fn key_index(keys: Seq<TrustedHostKey>, id: Seq<char>) -> Option<int>
    decreases keys.len(),
{
    if keys.len() == 0 {
        None
    } else {
        match key_index(keys.drop_last(), id) {
            Some(i) => Some(i),
            None => if keys.last().id@ == id {
                Some(keys.len() - 1)
            } else {
                None
            },
        }
    }
}

pub proof fn lemma_key_index(keys: Seq<TrustedHostKey>, id: Seq<char>)
    ensures
        match key_index(keys, id) {
            Some(i) => 0 <= i < keys.len() && keys[i].id@ == id && forall|k: int|
                0 <= k < i ==> (#[trigger] keys[k]).id@ != id,
            None => forall|k: int| 0 <= k < keys.len() ==> (#[trigger] keys[k]).id@ != id,
        },
    decreases keys.len(),
{
    if keys.len() > 0 {
        lemma_key_index(keys.drop_last(), id);
        assert forall|k: int| 0 <= k < keys.len() - 1 implies keys[k] == keys.drop_last()[k] by {}
    }
}

/// Finds the first key with the given id.
pub fn find_key(keys: &Vec<TrustedHostKey>, id: &str) -> (r: Option<usize>)
    ensures
        r == match key_index(keys@, id@) {
            Some(i) => Some(i as usize),
            None => None::<usize>,
        },
        r matches Some(i) ==> i < keys@.len() && key_index(keys@, id@) == Some(i as int),
{
    proof {
        lemma_key_index(keys@, id@);
    }
    let mut i: usize = 0;
    while i < keys.len()
        invariant
            i <= keys@.len(),
            forall|k: int| 0 <= k < i ==> (#[trigger] keys@[k]).id@ != id@,
        decreases keys@.len() - i,
    {
        if str_eq(keys[i].id.as_str(), id) {
            proof {
                lemma_key_index(keys@, id@);
            }
            return Some(i);
        }
        i = i + 1;
    }
    None
}

fn trimmed_option(o: &Option<String>) -> (r: Option<String>)
    ensures
        opt_view(r) == trimmed_nonempty(*o),
{
    match o {
        Some(s) => {
            let t = trim_string(s.as_str());
            if t.unicode_len() > 0 {
                Some(t)
            } else {
                None
            }
        },
        None => None,
    }
}

/// The checks on an update request before it is merged: the expected key is
/// the one to update, alias and host are not blank, the port is not zero,
/// and the key is in the store.
pub open spec fn update_request_problem(store: SessionStore, request: HostKeyUpdateRequest) -> Option<
    Seq<char>,
> {
    if request.expected_key.id@ != request.key_id@ {
        Some("expectedKey 与更新目标不是同一个 host key"@)
    } else if trim(request.alias@).len() == 0 {
        Some("host key alias 不能为空"@)
    } else if trim(request.host@).len() == 0 {
        Some("host key host 不能为空"@)
    } else if request.port == 0 {
        Some("host key 端口必须在 1-65535 之间"@)
    } else if key_index(store.host_keys@, request.key_id@) is None {
        Some("unknown host key: "@ + request.key_id@)
    } else {
        None
    }
}

/// The key as the request would leave it: the expected key with the
/// request's fields, trimmed, in place of its editable ones.
pub open spec fn incoming_key_of(request: HostKeyUpdateRequest, k: TrustedHostKey) -> bool {
    &&& k.id == request.expected_key.id
    &&& k.algorithm == request.expected_key.algorithm
    &&& k.fingerprint_sha256 == request.expected_key.fingerprint_sha256
    &&& k.public_key_base64 == request.expected_key.public_key_base64
    &&& k.first_seen == request.expected_key.first_seen
    &&& k.last_seen == request.expected_key.last_seen
    &&& k.alias@ == trim(request.alias@)
    &&& k.host@ == trim(request.host@)
    &&& k.port == request.port
    &&& opt_view(k.profile_id) == trimmed_nonempty(request.profile_id)
    &&& k.scope == request.scope
    &&& opt_view(k.label) == trimmed_nonempty(request.label)
}

/// Checks an update request and returns the stored key it targets and the
/// key the request asks for; the two, with the expected key, are what the
/// three-way merge of the update takes.
pub fn host_key_update_incoming(store: &SessionStore, request: &HostKeyUpdateRequest) -> (r: Result<
    (TrustedHostKey, TrustedHostKey),
    String,
>)
    ensures
        match update_request_problem(*store, *request) {
            Some(p) => r matches Err(e) && e@ == p,
            None => r matches Ok(pair) && key_index(store.host_keys@, request.key_id@) matches Some(
                i,
            ) && pair.0 == store.host_keys@[i] && incoming_key_of(*request, pair.1),
        },
{
    if !str_eq(request.expected_key.id.as_str(), request.key_id.as_str()) {
        return Err(String::from_str("expectedKey 与更新目标不是同一个 host key"));
    }
    let alias = trim_string(request.alias.as_str());
    if alias.unicode_len() == 0 {
        return Err(String::from_str("host key alias 不能为空"));
    }
    let host = trim_string(request.host.as_str());
    if host.unicode_len() == 0 {
        return Err(String::from_str("host key host 不能为空"));
    }
    if request.port == 0 {
        return Err(String::from_str("host key 端口必须在 1-65535 之间"));
    }
    let profile_id = trimmed_option(&request.profile_id);
    let label = trimmed_option(&request.label);
    let index = match find_key(&store.host_keys, request.key_id.as_str()) {
        Some(i) => i,
        None => {
            let mut e = String::from_str("unknown host key: ");
            push_str(&mut e, request.key_id.as_str());
            return Err(e);
        },
    };
    let current = copy_host_key(&store.host_keys[index]);
    let expected = &request.expected_key;
    let incoming = TrustedHostKey {
        id: expected.id.clone(),
        profile_id,
        alias,
        host,
        port: request.port,
        algorithm: expected.algorithm.clone(),
        fingerprint_sha256: expected.fingerprint_sha256.clone(),
        public_key_base64: expected.public_key_base64.clone(),
        scope: request.scope,
        label,
        first_seen: expected.first_seen,
        last_seen: expected.last_seen,
    };
    Ok((current, incoming))
}

/// `k` with the editable fields of `m`.
pub open spec fn edited(k: TrustedHostKey, m: TrustedHostKey) -> TrustedHostKey {
    TrustedHostKey {
        profile_id: m.profile_id,
        alias: m.alias,
        host: m.host,
        port: m.port,
        scope: m.scope,
        label: m.label,
        ..k
    }
}

/// The keys with those of the given id edited.
pub open spec fn edit_keys(keys: Seq<TrustedHostKey>, id: Seq<char>, m: TrustedHostKey) -> Seq<
    TrustedHostKey,
> {
    keys.map_values(|k: TrustedHostKey| if k.id@ == id {
        edited(k, m)
    } else {
        k
    })
}

/// The merged key may be stored: a profile-scoped key names a profile,
/// and the profile a key names exists.
pub open spec fn merged_key_problem(store: SessionStore, merged: TrustedHostKey) -> Option<Seq<char>> {
    match merged.profile_id {
        None => if merged.scope == HostKeyScope::Profile {
            Some("Profile scope host key 必须选择 Profile"@)
        } else {
            None
        },
        Some(p) => if profile_index(store.profiles@, p@) is None {
            Some("unknown session: "@ + p@)
        } else {
            None
        },
    }
}

fn edit_keys_in(keys: &mut Vec<TrustedHostKey>, id: &str, merged: &TrustedHostKey)
    ensures
        final(keys)@ == edit_keys(old(keys)@, id@, *merged),
{
    let ghost start = keys@;
    let mut i: usize = 0;
    while i < keys.len()
        invariant
            i <= keys@.len(),
            keys@.len() == start.len(),
            forall|j: int| 0 <= j < i ==> #[trigger] keys@[j] == (if start[j].id@ == id@ {
                edited(start[j], *merged)
            } else {
                start[j]
            }),
            forall|j: int| i <= j < keys@.len() ==> #[trigger] keys@[j] == start[j],
        decreases keys@.len() - i,
    {
        if str_eq(keys[i].id.as_str(), id) {
            apply_host_key_editable_fields(&mut keys[i], merged);
        }
        i = i + 1;
    }
    assert(keys@ =~= edit_keys(start, id@, *merged));
}

fn edit_profile_keys(profile: &mut SessionProfile, id: &str, merged: &TrustedHostKey)
    ensures
        keys_replaced(*old(profile), *final(profile), edit_keys(profile_keys(*old(profile)), id@, *merged)),
{
    match &mut profile.connection {
        ConnectionConfig::Ssh(ssh) => edit_keys_in(&mut ssh.trusted_host_keys, id, merged),
        ConnectionConfig::Tmux(ssh) => edit_keys_in(&mut ssh.trusted_host_keys, id, merged),
        _ => {
            assert(edit_keys(seq![], id@, *merged) =~= seq![]);
        },
    }
}

/// Applies an edit of a trusted host key: the request is checked, then the
/// result of its three-way merge, `merged_key`, is checked and its editable
/// fields are written to the stored key and to every profile's copy of it.
/// Returns the store's keys.
pub fn update_host_key_in_store(
    store: &mut SessionStore,
    request: &HostKeyUpdateRequest,
    merged_key: &TrustedHostKey,
) -> (r: Result<Vec<TrustedHostKey>, String>)
    ensures
        r is Ok <==> update_request_problem(*old(store), *request) is None && merged_key_problem(
            *old(store),
            *merged_key,
        ) is None,
        r is Err ==> *final(store) == *old(store),
        r matches Err(e) ==> e@ == match update_request_problem(*old(store), *request) {
            Some(p) => p,
            None => merged_key_problem(*old(store), *merged_key).unwrap(),
        },
        r is Ok ==> (key_index(old(store).host_keys@, request.key_id@) matches Some(i)
            && final(store).host_keys@ == old(store).host_keys@.update(
            i,
            edited(old(store).host_keys@[i], *merged_key),
        )),
        r matches Ok(keys) ==> keys@ == final(store).host_keys@,
        r is Ok ==> final(store).profiles@.len() == old(store).profiles@.len(),
        r is Ok ==> forall|i: int|
            0 <= i < old(store).profiles@.len() ==> keys_replaced(
                #[trigger] old(store).profiles@[i],
                final(store).profiles@[i],
                edit_keys(profile_keys(old(store).profiles@[i]), request.key_id@, *merged_key),
            ),
{
    match host_key_update_incoming(store, request) {
        Err(e) => return Err(e),
        Ok(_) => {},
    }
    match &merged_key.profile_id {
        None => {
            if merged_key.scope == HostKeyScope::Profile {
                return Err(String::from_str("Profile scope host key 必须选择 Profile"));
            }
        },
        Some(p) => {
            if find_profile(&store.profiles, p.as_str()).is_none() {
                let mut e = String::from_str("unknown session: ");
                push_str(&mut e, p.as_str());
                return Err(e);
            }
        },
    }
    let index = match find_key(&store.host_keys, request.key_id.as_str()) {
        Some(i) => i,
        None => {
            let mut e = String::from_str("unknown host key: ");
            push_str(&mut e, request.key_id.as_str());
            return Err(e);
        },
    };
    apply_host_key_editable_fields(&mut store.host_keys[index], merged_key);
    let ghost old_profiles = store.profiles@;
    let ghost edited_keys = store.host_keys@;
    let mut i: usize = 0;
    while i < store.profiles.len()
        invariant
            i <= store.profiles@.len(),
            store.host_keys@ == edited_keys,
            store.profiles@.len() == old_profiles.len(),
            forall|k: int|
                0 <= k < i ==> keys_replaced(
                    #[trigger] old_profiles[k],
                    store.profiles@[k],
                    edit_keys(profile_keys(old_profiles[k]), request.key_id@, *merged_key),
                ),
            forall|k: int| i <= k < store.profiles@.len() ==> #[trigger] store.profiles@[k] == old_profiles[k],
        decreases store.profiles@.len() - i,
    {
        edit_profile_keys(&mut store.profiles[i], request.key_id.as_str(), merged_key);
        i = i + 1;
    }
    Ok(crate::host_keys::copy_keys(&store.host_keys))
}


/// `keys` with `k` put in: in place of the first key with its id, else at
/// the end.
pub open spec fn upsert_key(keys: Seq<TrustedHostKey>, k: TrustedHostKey) -> Seq<TrustedHostKey> {
    match key_index(keys, k.id@) {
        Some(i) => keys.update(i, k),
        None => keys.push(k),
    }
}

/// Putting a key into a list whose ids are distinct keeps them distinct,
/// and the list then holds the key, once, and every key of another id it
/// held before.
pub proof fn lemma_upsert_key(keys: Seq<TrustedHostKey>, k: TrustedHostKey)
    requires
        crate::one_time_keys::key_ids_unique(keys),
    ensures
        crate::one_time_keys::key_ids_unique(upsert_key(keys, k)),
        upsert_key(keys, k).contains(k),
        forall|j: int| 0 <= j < keys.len() && (#[trigger] keys[j]).id@ != k.id@ ==> upsert_key(keys, k).contains(keys[j]),
{
    lemma_key_index(keys, k.id@);
    let r = upsert_key(keys, k);
    match key_index(keys, k.id@) {
        Some(i) => {
            assert(r[i] == k);
            assert forall|a: int, b: int| 0 <= a < r.len() && 0 <= b < r.len() && (#[trigger] r[a]).id@ == (#[trigger] r[b]).id@ implies a == b by {
                if a != i && b != i {
                    assert(r[a] == keys[a] && r[b] == keys[b]);
                } else if a == i && b != i {
                    assert(keys[b].id@ == keys[i].id@);
                } else if b == i && a != i {
                    assert(keys[a].id@ == keys[i].id@);
                }
            }
            assert forall|j: int| 0 <= j < keys.len() && (#[trigger] keys[j]).id@ != k.id@ implies r.contains(keys[j]) by {
                assert(r[j] == keys[j]);
            }
        },
        None => {
            assert(r[keys.len() as int] == k);
            assert forall|j: int| 0 <= j < keys.len() && (#[trigger] keys[j]).id@ != k.id@ implies r.contains(keys[j]) by {
                assert(r[j] == keys[j]);
            }
        },
    }
}

/// `base` with each of `ks` put in, in order.
pub open spec fn upsert_all(base: Seq<TrustedHostKey>, ks: Seq<TrustedHostKey>) -> Seq<TrustedHostKey>
    decreases ks.len(),
{
    if ks.len() == 0 {
        base
    } else {
        upsert_key(upsert_all(base, ks.drop_last()), ks.last())
    }
}

/// The keys of `ks` that name the profile `pid` as their source, in order.
pub open spec fn keys_for_profile(ks: Seq<TrustedHostKey>, pid: Seq<char>) -> Seq<TrustedHostKey>
    decreases ks.len(),
{
    if ks.len() == 0 {
        seq![]
    } else if opt_view(ks.last().profile_id) == Some(pid) {
        keys_for_profile(ks.drop_last(), pid).push(ks.last())
    } else {
        keys_for_profile(ks.drop_last(), pid)
    }
}

/// Why a key cannot be copied into its profile: it names none, the profile
/// does not exist, or it is not an SSH profile.
pub open spec fn mirror_problem(profiles: Seq<SessionProfile>, k: TrustedHostKey) -> Option<Seq<char>> {
    match k.profile_id {
        None => Some("host key "@ + k.id@ + " has no source Profile"@),
        Some(p) => match profile_index(profiles, p@) {
            None => Some("unknown session: "@ + p@),
            Some(i) => if ssh_of(profiles[i].connection) is None {
                Some("profile is not SSH-backed: "@ + p@)
            } else {
                None
            },
        },
    }
}

/// The position of the first key that cannot be copied.
pub open spec fn first_mirror_failure(profiles: Seq<SessionProfile>, ks: Seq<TrustedHostKey>) -> Option<
    int,
>
    decreases ks.len(),
{
    if ks.len() == 0 {
        None
    } else {
        match first_mirror_failure(profiles, ks.drop_last()) {
            Some(i) => Some(i),
            None => if mirror_problem(profiles, ks.last()) is Some {
                Some(ks.len() - 1)
            } else {
                None
            },
        }
    }
}

pub proof fn lemma_first_mirror_failure(profiles: Seq<SessionProfile>, ks: Seq<TrustedHostKey>)
    ensures
        match first_mirror_failure(profiles, ks) {
            Some(f) => 0 <= f < ks.len() && mirror_problem(profiles, ks[f]) is Some && forall|j: int|
                0 <= j < f ==> mirror_problem(profiles, #[trigger] ks[j]) is None,
            None => forall|j: int| 0 <= j < ks.len() ==> mirror_problem(profiles, #[trigger] ks[j]) is None,
        },
    decreases ks.len(),
{
    if ks.len() > 0 {
        lemma_first_mirror_failure(profiles, ks.drop_last());
        assert forall|j: int| 0 <= j < ks.len() - 1 implies ks[j] == ks.drop_last()[j] by {}
    }
}

pub proof fn lemma_failure_at(profiles: Seq<SessionProfile>, ks: Seq<TrustedHostKey>, n: int)
    requires
        0 <= n < ks.len(),
        n <= mirrored_count(profiles, ks),
        mirror_problem(profiles, ks[n]) is Some,
    ensures
        first_mirror_failure(profiles, ks) == Some(n),
{
    lemma_first_mirror_failure(profiles, ks);
}

pub proof fn lemma_keys_for_profile_push(ks: Seq<TrustedHostKey>, k: TrustedHostKey, pid: Seq<char>)
    ensures
        keys_for_profile(ks.push(k), pid) == if opt_view(k.profile_id) == Some(pid) {
            keys_for_profile(ks, pid).push(k)
        } else {
            keys_for_profile(ks, pid)
        },
{
    assert(ks.push(k).drop_last() =~= ks);
}

pub proof fn lemma_upsert_all_push(base: Seq<TrustedHostKey>, ks: Seq<TrustedHostKey>, k: TrustedHostKey)
    ensures
        upsert_all(base, ks.push(k)) == upsert_key(upsert_all(base, ks), k),
{
    assert(ks.push(k).drop_last() =~= ks);
}

pub proof fn lemma_keys_replaced_trans(
    p: SessionProfile,
    q: SessionProfile,
    r: SessionProfile,
    ks1: Seq<TrustedHostKey>,
    ks2: Seq<TrustedHostKey>,
)
    requires
        keys_replaced(p, q, ks1),
        keys_replaced(q, r, ks2),
    ensures
        keys_replaced(p, r, ks2),
        ssh_of(p.connection) is Some ==> profile_keys(q) == ks1,
{
}

/// How many keys are copied before the first that cannot be.
pub open spec fn mirrored_count(profiles: Seq<SessionProfile>, ks: Seq<TrustedHostKey>) -> int {
    match first_mirror_failure(profiles, ks) {
        Some(f) => f,
        None => ks.len() as int,
    }
}

/// What copying `ks` does to the profile at `i`: the first profile with a
/// given id receives the keys that name it; other profiles keep theirs.
pub open spec fn mirrored_profile(
    profiles: Seq<SessionProfile>,
    i: int,
    ks: Seq<TrustedHostKey>,
    q: SessionProfile,
) -> bool {
    if profile_index(profiles, profiles[i].id@) == Some(i) {
        keys_replaced(
            profiles[i],
            q,
            upsert_all(profile_keys(profiles[i]), keys_for_profile(ks, profiles[i].id@)),
        )
    } else {
        q == profiles[i]
    }
}

fn upsert_in(keys: &mut Vec<TrustedHostKey>, k: &TrustedHostKey)
    ensures
        final(keys)@ == upsert_key(old(keys)@, *k),
{
    match find_key(keys, k.id.as_str()) {
        Some(i) => {
            keys.set(i, copy_host_key(k));
        },
        None => {
            keys.push(copy_host_key(k));
        },
    }
}

fn mirror_into_profile(profile: &mut SessionProfile, k: &TrustedHostKey)
    requires
        ssh_of(old(profile).connection) is Some,
    ensures
        keys_replaced(*old(profile), *final(profile), upsert_key(profile_keys(*old(profile)), *k)),
{
    match &mut profile.connection {
        ConnectionConfig::Ssh(ssh) => upsert_in(&mut ssh.trusted_host_keys, k),
        ConnectionConfig::Tmux(ssh) => upsert_in(&mut ssh.trusted_host_keys, k),
        _ => {},
    }
}

fn profile_is_ssh(profile: &SessionProfile) -> (r: bool)
    ensures
        r == ssh_of(profile.connection) is Some,
{
    match &profile.connection {
        ConnectionConfig::Ssh(_) => true,
        ConnectionConfig::Tmux(_) => true,
        _ => false,
    }
}

/// Copies each key into the profile it names, replacing an older copy with
/// the same id. Stops at the first key that names no profile, an unknown
/// one, or one that is not SSH, with the keys before it copied.
pub fn mirror_persistent_host_keys(store: &mut SessionStore, keys: &[TrustedHostKey]) -> (r: Result<
    (),
    String,
>)
    ensures
        r is Ok <==> first_mirror_failure(old(store).profiles@, keys@) is None,
        r matches Err(e) ==> e@ == mirror_problem(
            old(store).profiles@,
            keys@[mirrored_count(old(store).profiles@, keys@)],
        ).unwrap(),
        final(store).host_keys == old(store).host_keys,
        final(store).profiles@.len() == old(store).profiles@.len(),
        forall|i: int|
            0 <= i < old(store).profiles@.len() ==> mirrored_profile(
                old(store).profiles@,
                i,
                keys@.take(mirrored_count(old(store).profiles@, keys@)),
                #[trigger] final(store).profiles@[i],
            ),
{
    let ghost old_profiles = store.profiles@;
    proof {
        lemma_first_mirror_failure(old_profiles, keys@);
        assert forall|i: int| 0 <= i < old_profiles.len() implies mirrored_profile(
            old_profiles,
            i,
            keys@.take(0),
            #[trigger] old_profiles[i],
        ) by {
            assert(keys@.take(0) =~= seq![]);
        }
    }
    let mut n: usize = 0;
    while n < keys.len()
        invariant
            n <= keys@.len(),
            n <= mirrored_count(old_profiles, keys@),
            old_profiles == old(store).profiles@,
            store.host_keys == old(store).host_keys,
            store.profiles@.len() == old_profiles.len(),
            forall|i: int| 0 <= i < old_profiles.len() ==> (#[trigger] store.profiles@[i]).id
                == old_profiles[i].id,
            forall|i: int|
                0 <= i < old_profiles.len() ==> (ssh_of((#[trigger] store.profiles@[i]).connection) is Some
                    <==> ssh_of(old_profiles[i].connection) is Some),
            forall|i: int|
                0 <= i < old_profiles.len() ==> mirrored_profile(
                    old_profiles,
                    i,
                    keys@.take(n as int),
                    #[trigger] store.profiles@[i],
                ),
        decreases keys@.len() - n,
    {
        proof {
            lemma_first_mirror_failure(old_profiles, keys@);
        }
        let key = &keys[n];
        let pid = match &key.profile_id {
            Some(p) => p,
            None => {
                proof {
                    lemma_failure_at(old_profiles, keys@, n as int);
                }
                let mut e = String::from_str("host key ");
                push_str(&mut e, key.id.as_str());
                push_str(&mut e, " has no source Profile");
                return Err(e);
            },
        };
        let j = match find_profile(&store.profiles, pid.as_str()) {
            Some(j) => j,
            None => {
                proof {
                    crate::profile::lemma_profile_index(store.profiles@, pid@);
                    crate::profile::lemma_profile_index(old_profiles, pid@);
                    if profile_index(old_profiles, pid@) is Some {
                        let i = profile_index(old_profiles, pid@).unwrap();
                        assert(store.profiles@[i].id == old_profiles[i].id);
                    }
                    lemma_failure_at(old_profiles, keys@, n as int);
                }
                let mut e = String::from_str("unknown session: ");
                push_str(&mut e, pid.as_str());
                return Err(e);
            },
        };
        proof {
            crate::profile::lemma_profile_index(store.profiles@, pid@);
            crate::profile::lemma_profile_index(old_profiles, pid@);
            assert(store.profiles@[j as int].id == old_profiles[j as int].id);
            if profile_index(old_profiles, pid@) is Some {
                let i = profile_index(old_profiles, pid@).unwrap();
                assert(store.profiles@[i].id == old_profiles[i].id);
            }
            assert(profile_index(old_profiles, pid@) == Some(j as int));
        }
        if !profile_is_ssh(&store.profiles[j]) {
            proof {
                assert(ssh_of(store.profiles@[j as int].connection) is Some <==> ssh_of(
                    old_profiles[j as int].connection,
                ) is Some);
                lemma_failure_at(old_profiles, keys@, n as int);
            }
            let mut e = String::from_str("profile is not SSH-backed: ");
            push_str(&mut e, pid.as_str());
            return Err(e);
        }
        let ghost before = store.profiles@;
        mirror_into_profile(&mut store.profiles[j], key);
        proof {
            let ks = keys@.take(n as int);
            let ks1 = keys@.take(n + 1);
            assert(ks1.drop_last() =~= ks);
            assert(ks1.last() == keys@[n as int]);
            assert(ks1 =~= ks.push(keys@[n as int]));
            assert forall|i: int| 0 <= i < old_profiles.len() implies mirrored_profile(
                old_profiles,
                i,
                ks1,
                #[trigger] store.profiles@[i],
            ) by {
                let id = old_profiles[i].id@;
                lemma_keys_for_profile_push(ks, keys@[n as int], id);
                if i == j {
                    assert(id == pid@);
                    let base = profile_keys(old_profiles[i]);
                    lemma_upsert_all_push(base, keys_for_profile(ks, id), keys@[n as int]);
                    lemma_keys_replaced_trans(
                        old_profiles[i],
                        before[i],
                        store.profiles@[i],
                        upsert_all(base, keys_for_profile(ks, id)),
                        upsert_key(profile_keys(before[i]), keys@[n as int]),
                    );
                } else {
                    assert(store.profiles@[i] == before[i]);
                    if profile_index(old_profiles, old_profiles[i].id@) == Some(i) {
                        assert(old_profiles[i].id@ != pid@);
                    }
                }
            }
        }
        n = n + 1;
    }
    proof {
        lemma_first_mirror_failure(old_profiles, keys@);
        assert(keys@.take(keys@.len() as int) =~= keys@);
    }
    Ok(())
}


/// The persistent key vouches for the observation with the given
/// fingerprint, for the profile and policy.
pub open spec fn touches(
    k: TrustedHostKey,
    profile_id: Seq<char>,
    policy: HostKeyPolicy,
    observation: HostKeyObservation,
    fingerprint: Seq<char>,
) -> bool {
    key_matches_observation(k, profile_id, policy, observation, observation.target_alias@, fingerprint)
}

/// Some key of the store with this id vouches for the observation.
pub open spec fn touched_id(
    keys: Seq<TrustedHostKey>,
    id: Seq<char>,
    profile_id: Seq<char>,
    policy: HostKeyPolicy,
    observation: HostKeyObservation,
    fingerprint: Seq<char>,
) -> bool {
    exists|j: int|
        0 <= j < keys.len() && touches(#[trigger] keys[j], profile_id, policy, observation, fingerprint)
            && keys[j].id@ == id
}

/// The key, seen again at `seen_at`.
pub open spec fn seen_again(k: TrustedHostKey, seen_at: i64) -> TrustedHostKey {
    TrustedHostKey { last_seen: seen_at, ..k }
}

/// The store's keys after a sighting: those that vouch for it are seen again.
pub open spec fn touch_store_keys(
    keys: Seq<TrustedHostKey>,
    profile_id: Seq<char>,
    policy: HostKeyPolicy,
    observation: HostKeyObservation,
    fingerprint: Seq<char>,
    seen_at: i64,
) -> Seq<TrustedHostKey> {
    keys.map_values(|k: TrustedHostKey| if touches(k, profile_id, policy, observation, fingerprint) {
        seen_again(k, seen_at)
    } else {
        k
    })
}

/// A profile's copy is seen again when it vouches for the sighting itself
/// or when a store key of its id did.
pub open spec fn touch_profile_key(
    store_keys: Seq<TrustedHostKey>,
    k: TrustedHostKey,
    profile_id: Seq<char>,
    policy: HostKeyPolicy,
    observation: HostKeyObservation,
    fingerprint: Seq<char>,
) -> bool {
    touched_id(store_keys, k.id@, profile_id, policy, observation, fingerprint) || touches(
        k,
        profile_id,
        policy,
        observation,
        fingerprint,
    )
}

/// The profile's copies after a sighting.
pub open spec fn touch_profile_keys(
    store_keys: Seq<TrustedHostKey>,
    keys: Seq<TrustedHostKey>,
    profile_id: Seq<char>,
    policy: HostKeyPolicy,
    observation: HostKeyObservation,
    fingerprint: Seq<char>,
    seen_at: i64,
) -> Seq<TrustedHostKey> {
    keys.map_values(
        |k: TrustedHostKey|
            if touch_profile_key(store_keys, k, profile_id, policy, observation, fingerprint) {
                seen_again(k, seen_at)
            } else {
                k
            },
    )
}

fn id_collected(ids: &Vec<String>, id: &str) -> (r: bool)
    ensures
        r == crate::host_keys::id_listed(id@, ids@),
{
    crate::host_keys::id_in(id, ids.as_slice())
}

fn touch_in_store(
    keys: &mut Vec<TrustedHostKey>,
    profile_id: &str,
    policy: &HostKeyPolicy,
    observation: &HostKeyObservation,
    fingerprint: &str,
    seen_at: i64,
) -> (ids: Vec<String>)
    ensures
        final(keys)@ == touch_store_keys(old(keys)@, profile_id@, *policy, *observation, fingerprint@, seen_at),
        forall|id: Seq<char>|
            crate::host_keys::id_listed(id, ids@) == touched_id(old(keys)@, id, profile_id@, *policy, *observation, fingerprint@),
{
    let ghost start = keys@;
    let mut ids: Vec<String> = Vec::new();
    let mut i: usize = 0;
    while i < keys.len()
        invariant
            i <= keys@.len(),
            keys@.len() == start.len(),
            forall|j: int| 0 <= j < i ==> #[trigger] keys@[j] == (if touches(start[j], profile_id@, *policy, *observation, fingerprint@) {
                seen_again(start[j], seen_at)
            } else {
                start[j]
            }),
            forall|j: int| i <= j < keys@.len() ==> #[trigger] keys@[j] == start[j],
            forall|id: Seq<char>|
                crate::host_keys::id_listed(id, ids@) == touched_id(start.take(i as int), id, profile_id@, *policy, *observation, fingerprint@),
        decreases keys@.len() - i,
    {
        let ghost before_ids = ids@;
        let ghost before_i = i;
        let hit = crate::host_keys::persistent_host_key_matches_observation(
            &keys[i],
            profile_id,
            policy,
            observation,
            observation.target_alias.as_str(),
            fingerprint,
        );
        if hit {
            let id = keys[i].id.clone();
            keys[i].last_seen = seen_at;
            ids.push(id);
        }
        proof {
            if hit {
                assert(ids@ =~= before_ids.push(ids@.last()));
                assert(ids@.last()@ == start[i as int].id@);
            } else {
                assert(ids@ =~= before_ids);
            }
            let t0 = start.take(i as int);
            let t1 = start.take(i + 1);
            assert forall|id: Seq<char>|
                crate::host_keys::id_listed(id, ids@) == touched_id(t1, id, profile_id@, *policy, *observation, fingerprint@) by {
                if touched_id(t1, id, profile_id@, *policy, *observation, fingerprint@) {
                    let j = choose|j: int| 0 <= j < t1.len() && touches(#[trigger] t1[j], profile_id@, *policy, *observation, fingerprint@) && t1[j].id@ == id;
                    if j < i {
                        assert(t0[j] == t1[j]);
                        assert(touches(t0[j], profile_id@, *policy, *observation, fingerprint@));
                        assert(touched_id(t0, id, profile_id@, *policy, *observation, fingerprint@));
                        assert(crate::host_keys::id_listed(id, before_ids));
                        let k = choose|k: int| 0 <= k < before_ids.len() && (#[trigger] before_ids[k])@ == id;
                        assert(ids@[k] == before_ids[k]);
                    } else {
                        assert(ids@[ids@.len() - 1]@ == id);
                    }
                }
                if crate::host_keys::id_listed(id, ids@) {
                    let k = choose|k: int| 0 <= k < ids@.len() && (#[trigger] ids@[k])@ == id;
                    if k < before_ids.len() {
                        assert(ids@[k] == before_ids[k]);
                        assert(crate::host_keys::id_listed(id, before_ids));
                        let j = choose|j: int| 0 <= j < t0.len() && touches(#[trigger] t0[j], profile_id@, *policy, *observation, fingerprint@) && t0[j].id@ == id;
                        assert(t1[j] == t0[j]);
                        assert(touches(t1[j], profile_id@, *policy, *observation, fingerprint@));
                    } else {
                        assert(touches(t1[i as int], profile_id@, *policy, *observation, fingerprint@));
                        assert(t1[i as int] == start[i as int]);
                    }
                }
            }
        }
        i = i + 1;
    }
    assert(start.take(start.len() as int) =~= start);
    assert(keys@ =~= touch_store_keys(start, profile_id@, *policy, *observation, fingerprint@, seen_at));
    ids
}

fn touch_in_profile(
    keys: &mut Vec<TrustedHostKey>,
    store_keys: Ghost<Seq<TrustedHostKey>>,
    ids: &Vec<String>,
    profile_id: &str,
    policy: &HostKeyPolicy,
    observation: &HostKeyObservation,
    fingerprint: &str,
    seen_at: i64,
) -> (touched: bool)
    requires
        forall|id: Seq<char>|
            crate::host_keys::id_listed(id, ids@) == touched_id(store_keys@, id, profile_id@, *policy, *observation, fingerprint@),
    ensures
        final(keys)@ == touch_profile_keys(store_keys@, old(keys)@, profile_id@, *policy, *observation, fingerprint@, seen_at),
        touched == exists|j: int| 0 <= j < old(keys)@.len() && touch_profile_key(store_keys@, #[trigger] old(keys)@[j], profile_id@, *policy, *observation, fingerprint@),
{
    let ghost start = keys@;
    let mut touched = false;
    let mut i: usize = 0;
    while i < keys.len()
        invariant
            i <= keys@.len(),
            keys@.len() == start.len(),
            forall|id: Seq<char>|
                crate::host_keys::id_listed(id, ids@) == touched_id(store_keys@, id, profile_id@, *policy, *observation, fingerprint@),
            forall|j: int| 0 <= j < i ==> #[trigger] keys@[j] == (if touch_profile_key(store_keys@, start[j], profile_id@, *policy, *observation, fingerprint@) {
                seen_again(start[j], seen_at)
            } else {
                start[j]
            }),
            forall|j: int| i <= j < keys@.len() ==> #[trigger] keys@[j] == start[j],
            touched == exists|j: int| 0 <= j < i && touch_profile_key(store_keys@, #[trigger] start[j], profile_id@, *policy, *observation, fingerprint@),
        decreases keys@.len() - i,
    {
        let hit = id_collected(ids, keys[i].id.as_str()) || crate::host_keys::persistent_host_key_matches_observation(
            &keys[i],
            profile_id,
            policy,
            observation,
            observation.target_alias.as_str(),
            fingerprint,
        );
        assert(hit == touch_profile_key(store_keys@, start[i as int], profile_id@, *policy, *observation, fingerprint@));
        if hit {
            keys[i].last_seen = seen_at;
            touched = true;
        }
        i = i + 1;
    }
    assert(keys@ =~= touch_profile_keys(store_keys@, start, profile_id@, *policy, *observation, fingerprint@, seen_at));
    touched
}

/// Marks the trusted keys that vouch for an observed server key as seen at
/// `seen_at`: the store's own, and in the profile (the first with the id,
/// when it is SSH) its copies of those and the copies that vouch on their
/// own. Tells whether any key was marked; fails, changing nothing, when the
/// observation has no fingerprint.
pub fn touch_observed_host_key(
    store: &mut SessionStore,
    profile_id: &str,
    policy: &HostKeyPolicy,
    observation: &HostKeyObservation,
    seen_at: i64,
) -> (r: Result<bool, String>)
    ensures
        r is Err <==> observation.fingerprint_sha256 is Err,
        r is Err ==> *final(store) == *old(store),
        r matches Err(f) ==> (observation.fingerprint_sha256 matches Err(e) && f@ == e@),
        r matches Ok(b) ==> (observation.fingerprint_sha256 matches Ok(fp) && touched_store(
            *old(store),
            *final(store),
            profile_id@,
            *policy,
            *observation,
            fp@,
            seen_at,
        ) && b == touch_happened(*old(store), profile_id@, *policy, *observation, fp@)),
{
    let fingerprint = match &observation.fingerprint_sha256 {
        Ok(f) => f,
        Err(e) => return Err(e.clone()),
    };
    let ghost old_store = *store;
    let ids = touch_in_store(&mut store.host_keys, profile_id, policy, observation, fingerprint.as_str(), seen_at);
    let mut touched = ids.len() > 0;
    proof {
        if ids@.len() > 0 {
            assert(crate::host_keys::id_listed(ids@[0]@, ids@));
        } else {
            assert forall|j: int| 0 <= j < old_store.host_keys@.len() implies !touches(#[trigger] old_store.host_keys@[j], profile_id@, *policy, *observation, fingerprint@) by {
                if touches(old_store.host_keys@[j], profile_id@, *policy, *observation, fingerprint@) {
                    assert(touched_id(old_store.host_keys@, old_store.host_keys@[j].id@, profile_id@, *policy, *observation, fingerprint@));
                    assert(crate::host_keys::id_listed(old_store.host_keys@[j].id@, ids@));
                }
            }
        }
        crate::profile::lemma_profile_index(old_store.profiles@, profile_id@);
    }
    match find_profile(&store.profiles, profile_id) {
        Some(j) => {
            let ghost before = store.profiles@;
            let hit = match &mut store.profiles[j].connection {
                ConnectionConfig::Ssh(ssh) => touch_in_profile(
                    &mut ssh.trusted_host_keys,
                    Ghost(old_store.host_keys@),
                    &ids,
                    profile_id,
                    policy,
                    observation,
                    fingerprint.as_str(),
                    seen_at,
                ),
                ConnectionConfig::Tmux(ssh) => touch_in_profile(
                    &mut ssh.trusted_host_keys,
                    Ghost(old_store.host_keys@),
                    &ids,
                    profile_id,
                    policy,
                    observation,
                    fingerprint.as_str(),
                    seen_at,
                ),
                _ => false,
            };
            if hit {
                touched = true;
            }
            proof {
                assert forall|i: int| 0 <= i < before.len() && i != j implies #[trigger] store.profiles@[i] == before[i] by {}
            }
        },
        None => {},
    }
    proof {
        assert(touched_store(old_store, *store, profile_id@, *policy, *observation, fingerprint@, seen_at));
        assert(touched == touch_happened(old_store, profile_id@, *policy, *observation, fingerprint@));
    }
    Ok(touched)
}

/// What a sighting does to the store: the store's keys and the profile's
/// copies are marked as described at `touch_observed_host_key`; nothing
/// else changes.
pub open spec fn touched_store(
    a: SessionStore,
    b: SessionStore,
    profile_id: Seq<char>,
    policy: HostKeyPolicy,
    observation: HostKeyObservation,
    fingerprint: Seq<char>,
    seen_at: i64,
) -> bool {
    &&& b.host_keys@ == touch_store_keys(a.host_keys@, profile_id, policy, observation, fingerprint, seen_at)
    &&& b.profiles@.len() == a.profiles@.len()
    &&& forall|i: int|
        0 <= i < a.profiles@.len() ==> if profile_index(a.profiles@, profile_id) == Some(i) {
            keys_replaced(
                #[trigger] a.profiles@[i],
                b.profiles@[i],
                touch_profile_keys(a.host_keys@, profile_keys(a.profiles@[i]), profile_id, policy, observation, fingerprint, seen_at),
            )
        } else {
            b.profiles@[i] == a.profiles@[i]
        }
}

/// Some key, of the store or in the profile, vouches for the sighting.
pub open spec fn touch_happened(
    a: SessionStore,
    profile_id: Seq<char>,
    policy: HostKeyPolicy,
    observation: HostKeyObservation,
    fingerprint: Seq<char>,
) -> bool {
    ||| exists|j: int| 0 <= j < a.host_keys@.len() && touches(#[trigger] a.host_keys@[j], profile_id, policy, observation, fingerprint)
    ||| (profile_index(a.profiles@, profile_id) matches Some(i) && exists|j: int|
        0 <= j < profile_keys(a.profiles@[i]).len() && touch_profile_key(
            a.host_keys@,
            #[trigger] profile_keys(a.profiles@[i])[j],
            profile_id,
            policy,
            observation,
            fingerprint,
        ))
}


/// The host key policy of an SSH profile of the store.
pub open spec fn policy_lookup(store: SessionStore, profile_id: Seq<char>) -> Result<HostKeyPolicy, Seq<char>> {
    match profile_index(store.profiles@, profile_id) {
        None => Err("unknown session: "@ + profile_id),
        Some(i) => match ssh_of(store.profiles@[i].connection) {
            None => Err("profile is not SSH-backed: "@ + profile_id),
            Some(ssh) => Ok(ssh.host_key_policy),
        },
    }
}

/// The host key policy of the profile, which must exist and be SSH.
pub fn persistent_host_key_policy(store: &SessionStore, profile_id: &str) -> (r: Result<HostKeyPolicy, String>)
    ensures
        match policy_lookup(*store, profile_id@) {
            Ok(p) => r == Ok::<HostKeyPolicy, String>(p),
            Err(e) => r matches Err(f) && f@ == e,
        },
{
    let index = match find_profile(&store.profiles, profile_id) {
        Some(i) => i,
        None => {
            let mut e = String::from_str("unknown session: ");
            push_str(&mut e, profile_id);
            return Err(e);
        },
    };
    match crate::host_keys::ssh_ref(&store.profiles[index].connection) {
        Some(ssh) => Ok(ssh.host_key_policy),
        None => {
            let mut e = String::from_str("profile is not SSH-backed: ");
            push_str(&mut e, profile_id);
            Err(e)
        },
    }
}

/// The id was listed before a decision and no key of the store has it now.
pub open spec fn removed_id(previous: Seq<String>, current: Seq<TrustedHostKey>, id: Seq<char>) -> bool {
    crate::host_keys::id_listed(id, previous) && key_index(current, id) is None
}

/// `keys` without those whose id was removed.
pub open spec fn keys_dropping(
    keys: Seq<TrustedHostKey>,
    previous: Seq<String>,
    current: Seq<TrustedHostKey>,
) -> Seq<TrustedHostKey>
    decreases keys.len(),
{
    if keys.len() == 0 {
        seq![]
    } else {
        keys_dropping(keys.drop_last(), previous, current) + if removed_id(previous, current, keys.last().id@) {
            seq![]
        } else {
            seq![keys.last()]
        }
    }
}

pub proof fn lemma_keys_dropping(
    keys: Seq<TrustedHostKey>,
    ids: Seq<String>,
    previous: Seq<String>,
    current: Seq<TrustedHostKey>,
)
    requires
        forall|id: Seq<char>| crate::host_keys::id_listed(id, ids) == removed_id(previous, current, id),
    ensures
        crate::host_keys::keys_without(keys, ids) == keys_dropping(keys, previous, current),
    decreases keys.len(),
{
    if keys.len() > 0 {
        lemma_keys_dropping(keys.drop_last(), ids, previous, current);
    }
}

fn removed_key_ids(previous: &[String], current: &Vec<TrustedHostKey>) -> (r: Vec<String>)
    ensures
        forall|id: Seq<char>| crate::host_keys::id_listed(id, r@) == removed_id(previous@, current@, id),
{
    let mut out: Vec<String> = Vec::new();
    let mut i: usize = 0;
    while i < previous.len()
        invariant
            i <= previous@.len(),
            forall|id: Seq<char>|
                crate::host_keys::id_listed(id, out@) == (crate::host_keys::id_listed(id, previous@.take(i as int))
                    && key_index(current@, id) is None),
        decreases previous@.len() - i,
    {
        let ghost before = out@;
        let gone = find_key(current, previous[i].as_str()).is_none();
        if gone {
            out.push(previous[i].clone());
        }
        proof {
            let t0 = previous@.take(i as int);
            let t1 = previous@.take(i + 1);
            assert forall|id: Seq<char>|
                crate::host_keys::id_listed(id, out@) == (crate::host_keys::id_listed(id, t1) && key_index(current@, id) is None) by {
                if crate::host_keys::id_listed(id, t1) {
                    let j = choose|j: int| 0 <= j < t1.len() && (#[trigger] t1[j])@ == id;
                    if j < i {
                        assert(t0[j] == t1[j]);
                        assert(crate::host_keys::id_listed(id, t0));
                    }
                }
                if crate::host_keys::id_listed(id, t0) {
                    let j = choose|j: int| 0 <= j < t0.len() && (#[trigger] t0[j])@ == id;
                    assert(t0[j] == t1[j]);
                    assert(crate::host_keys::id_listed(id, t1));
                }
                if crate::host_keys::id_listed(id, out@) {
                    let k = choose|k: int| 0 <= k < out@.len() && (#[trigger] out@[k])@ == id;
                    if k < before.len() {
                        assert(out@[k] == before[k]);
                        assert(crate::host_keys::id_listed(id, before));
                    }
                }
                if crate::host_keys::id_listed(id, before) {
                    let k = choose|k: int| 0 <= k < before.len() && (#[trigger] before[k])@ == id;
                    assert(out@[k] == before[k]);
                    assert(crate::host_keys::id_listed(id, out@));
                }
                if gone && id == previous@[i as int]@ {
                    assert(out@[out@.len() - 1]@ == id);
                    assert(t1[i as int] == previous@[i as int]);
                }
            }
        }
        i = i + 1;
    }
    assert(previous@.take(previous@.len() as int) =~= previous@);
    out
}

/// A profile's keys once a host key decision is reconciled: the removed
/// keys dropped, and the trusted key put in when it names this profile.
pub open spec fn decided_profile_keys(
    profiles: Seq<SessionProfile>,
    i: int,
    previous: Seq<String>,
    current: Seq<TrustedHostKey>,
    trusted: Option<TrustedHostKey>,
    mirrored: bool,
) -> Seq<TrustedHostKey> {
    let base = keys_dropping(profile_keys(profiles[i]), previous, current);
    match trusted {
        Some(k) => if mirrored && profile_index(profiles, profiles[i].id@) == Some(i) && opt_view(
            k.profile_id,
        ) == Some(profiles[i].id@) {
            upsert_key(base, k)
        } else {
            base
        },
        None => base,
    }
}

/// Brings the profiles in line with a host key decision that was applied
/// to the store's keys: `previous_key_ids` are the ids the store held
/// before. Keys the decision removed leave every profile; the key it
/// trusted, if any, is copied into its profile. Returns that key.
pub fn apply_persistent_host_key_decision(
    store: &mut SessionStore,
    previous_key_ids: &[String],
    trusted: Option<TrustedHostKey>,
) -> (r: Result<Option<TrustedHostKey>, String>)
    ensures
        final(store).host_keys == old(store).host_keys,
        final(store).profiles@.len() == old(store).profiles@.len(),
        r is Ok <==> (trusted matches Some(k) ==> mirror_problem(old(store).profiles@, k) is None),
        r matches Ok(t) ==> t == trusted,
        r matches Err(e) ==> (trusted matches Some(k) && e@ == mirror_problem(old(store).profiles@, k).unwrap()),
        forall|i: int|
            0 <= i < old(store).profiles@.len() ==> keys_replaced(
                #[trigger] old(store).profiles@[i],
                final(store).profiles@[i],
                decided_profile_keys(old(store).profiles@, i, previous_key_ids@, old(store).host_keys@, trusted, r is Ok),
            ),
{
    let removed = removed_key_ids(previous_key_ids, &store.host_keys);
    let ghost old_profiles = store.profiles@;
    let ghost current = store.host_keys@;
    let mut i: usize = 0;
    while i < store.profiles.len()
        invariant
            i <= store.profiles@.len(),
            store.profiles@.len() == old_profiles.len(),
            store.host_keys@ == current,
            store.host_keys == old(store).host_keys,
            old_profiles == old(store).profiles@,
            forall|id: Seq<char>| crate::host_keys::id_listed(id, removed@) == removed_id(previous_key_ids@, current, id),
            forall|k: int| 0 <= k < i ==> keys_replaced(
                #[trigger] old_profiles[k],
                store.profiles@[k],
                keys_dropping(profile_keys(old_profiles[k]), previous_key_ids@, current),
            ),
            forall|k: int| i <= k < store.profiles@.len() ==> #[trigger] store.profiles@[k] == old_profiles[k],
        decreases store.profiles@.len() - i,
    {
        proof {
            lemma_keys_dropping(profile_keys(old_profiles[i as int]), removed@, previous_key_ids@, current);
        }
        match profile_keys_mut_retain(&mut store.profiles[i], &removed) {
            _ => {},
        }
        i = i + 1;
    }
    let ghost dropped = store.profiles@;
    match &trusted {
        None => {
            return Ok(trusted);
        },
        Some(k) => {
            let one = vec![copy_host_key(k)];
            proof {
                lemma_first_mirror_failure(dropped, one@);
                assert forall|p: Seq<char>| profile_index(dropped, p) == profile_index(old_profiles, p) by {
                    crate::profile::lemma_profile_index(dropped, p);
                    crate::profile::lemma_profile_index(old_profiles, p);
                    if profile_index(dropped, p) is Some {
                        let a = profile_index(dropped, p).unwrap();
                        assert(keys_replaced(old_profiles[a], dropped[a], keys_dropping(profile_keys(old_profiles[a]), previous_key_ids@, current)));
                        assert(dropped[a].id == old_profiles[a].id);
                    }
                    if profile_index(old_profiles, p) is Some {
                        let a = profile_index(old_profiles, p).unwrap();
                        assert(keys_replaced(old_profiles[a], dropped[a], keys_dropping(profile_keys(old_profiles[a]), previous_key_ids@, current)));
                        assert(dropped[a].id == old_profiles[a].id);
                    }
                    assert forall|a: int| 0 <= a < dropped.len() implies #[trigger] dropped[a].id == old_profiles[a].id by {
                        assert(keys_replaced(old_profiles[a], dropped[a], keys_dropping(profile_keys(old_profiles[a]), previous_key_ids@, current)));
                    }
                }
                assert(mirror_problem(dropped, *k) == mirror_problem(old_profiles, *k)) by {
                    if k.profile_id is Some {
                        let p = k.profile_id.unwrap()@;
                        crate::profile::lemma_profile_index(old_profiles, p);
                        if profile_index(old_profiles, p) is Some {
                            let a = profile_index(old_profiles, p).unwrap();
                            assert(keys_replaced(old_profiles[a], dropped[a], keys_dropping(profile_keys(old_profiles[a]), previous_key_ids@, current)));
                        }
                    }
                }
            }
            match mirror_persistent_host_keys(store, one.as_slice()) {
                Ok(()) => {
                    proof {
                        assert forall|i: int| 0 <= i < old_profiles.len() implies keys_replaced(
                            #[trigger] old_profiles[i],
                            store.profiles@[i],
                            decided_profile_keys(old_profiles, i, previous_key_ids@, current, trusted, true),
                        ) by {
                            assert(one@.take(1) =~= one@);
                            assert(one@ =~= seq![].push(*k));
                            lemma_keys_for_profile_push(seq![], *k, old_profiles[i].id@);
                            lemma_upsert_all_push(profile_keys(dropped[i]), seq![], *k);
                            assert(keys_replaced(old_profiles[i], dropped[i], keys_dropping(profile_keys(old_profiles[i]), previous_key_ids@, current)));
                            assert(dropped[i].id == old_profiles[i].id);
                            lemma_keys_replaced_trans(
                                old_profiles[i],
                                dropped[i],
                                store.profiles@[i],
                                keys_dropping(profile_keys(old_profiles[i]), previous_key_ids@, current),
                                decided_profile_keys(old_profiles, i, previous_key_ids@, current, trusted, true),
                            );
                        }
                    }
                    Ok(trusted)
                },
                Err(e) => {
                    proof {
                        assert(one@.take(0) =~= seq![]);
                        assert forall|i: int| 0 <= i < old_profiles.len() implies keys_replaced(
                            #[trigger] old_profiles[i],
                            store.profiles@[i],
                            decided_profile_keys(old_profiles, i, previous_key_ids@, current, trusted, false),
                        ) by {
                            assert(keys_replaced(old_profiles[i], dropped[i], keys_dropping(profile_keys(old_profiles[i]), previous_key_ids@, current)));
                            assert(dropped[i].id == old_profiles[i].id);
                        }
                    }
                    Err(e)
                },
            }
        },
    }
}

fn profile_keys_mut_retain(profile: &mut SessionProfile, removed: &Vec<String>)
    ensures
        keys_replaced(*old(profile), *final(profile), crate::host_keys::keys_without(profile_keys(*old(profile)), removed@)),
{
    let kept = match crate::host_keys::profile_keys_ref(profile) {
        Some(keys) => Some(crate::host_keys::retain_keys_not_in(keys, removed.as_slice())),
        None => None,
    };
    match kept {
        Some(keys) => crate::host_keys::set_profile_keys(profile, keys),
        None => {
            assert(crate::host_keys::keys_without(seq![], removed@) =~= seq![]);
        },
    }
}

/// What to do with a server key once the handshake accepted it; each
/// carries the event text to record.
#[derive(Debug)]
pub enum ObservedHostKeyAction {
    /// Trusted for this connection only; nothing to store.
    Accept(String),
    /// Vouched for by trusted keys: mark them as seen.
    Touch(String),
    /// Unknown, and the policy trusts on first use: add it to the profile.
    AppendToProfile(String),
}

/// `PortMate: SSH host key <what> (<algorithm>, <fingerprint>)`.
pub open spec fn host_key_event(what: Seq<char>, observation: HostKeyObservation, fp: Seq<char>) -> Seq<char> {
    "PortMate: SSH host key "@ + what + " ("@ + observation.algorithm@ + ", "@ + fp + ")"@
}

/// The decision on an observed server key, or why it is refused.
pub open spec fn observed_host_key_decision(
    store: SessionStore,
    profile_id: Seq<char>,
    observation: Option<HostKeyObservation>,
    expected_profile_matches: Option<bool>,
    one_time_host_keys: Seq<TrustedHostKey>,
    evaluation: HostKeyEvaluation,
) -> Result<(int, Seq<char>), Seq<char>> {
    match observation {
        None => Err("SSH 未收到服务器 host key"@),
        Some(obs) => match profile_index(store.profiles@, profile_id) {
            None => Err("unknown session: "@ + profile_id),
            Some(i) => if expected_profile_matches == Some(false) {
                Err("SSH profile changed while establishing session: "@ + profile_id)
            } else {
                match ssh_of(store.profiles@[i].connection) {
                    None => Err("profile is not SSH-backed: "@ + profile_id),
                    Some(ssh) => if crate::host_keys::one_time_trusts(one_time_host_keys, profile_id, obs) {
                        match obs.fingerprint_sha256 {
                            Ok(fp) => Ok((0, host_key_event("trusted for this connection only"@, obs, fp@))),
                            Err(e) => Err(e@),
                        }
                    } else if crate::host_keys::profile_trusts(store, profile_id, obs) {
                        match obs.fingerprint_sha256 {
                            Ok(fp) => Ok((1, host_key_event("verified by profile trust"@, obs, fp@))),
                            Err(e) => Err(e@),
                        }
                    } else {
                        match evaluation {
                            HostKeyEvaluation::Trusted { fingerprint_sha256, .. } => Ok(
                                (1, host_key_event("verified"@, obs, fingerprint_sha256@)),
                            ),
                            HostKeyEvaluation::Unknown { fingerprint_sha256, .. } => if ssh.host_key_policy.mode
                                != crate::profile::HostKeyMode::TrustOnFirstUse {
                                Err("SSH host key 未受信任: "@ + obs.algorithm@ + " "@ + fingerprint_sha256@)
                            } else {
                                Ok((2, host_key_event("trusted for this profile"@, obs, fingerprint_sha256@)))
                            },
                            HostKeyEvaluation::Mismatch { .. } => Err(rejection_text(evaluation)),
                        }
                    },
                }
            },
        },
    }
}

/// The action as a number and its text: accept, touch, append.
pub open spec fn action_view(a: ObservedHostKeyAction) -> (int, Seq<char>) {
    match a {
        ObservedHostKeyAction::Accept(m) => (0, m@),
        ObservedHostKeyAction::Touch(m) => (1, m@),
        ObservedHostKeyAction::AppendToProfile(m) => (2, m@),
    }
}

fn host_key_event_text(what: &str, observation: &HostKeyObservation, fp: &str) -> (r: String)
    ensures
        r@ == host_key_event(what@, *observation, fp@),
{
    let mut s = String::from_str("PortMate: SSH host key ");
    push_str(&mut s, what);
    push_str(&mut s, " (");
    push_str(&mut s, observation.algorithm.as_str());
    push_str(&mut s, ", ");
    push_str(&mut s, fp);
    push_str(&mut s, ")");
    s
}

/// Decides what becomes of the server key observed in a handshake for the
/// profile: refused when none was received, the profile is unknown,
/// changed while connecting (`expected_profile_matches` is `Some(false)`)
/// or not SSH; accepted for this connection when a one-time key covers
/// it; marked as seen when the profile's keys vouch for it or the store's
/// `evaluation` of it is trusted; added to the profile when it is unknown
/// and the policy trusts on first use; refused otherwise.
pub fn persist_observed_host_key(
    store: &SessionStore,
    profile_id: &str,
    observation: Option<&HostKeyObservation>,
    expected_profile_matches: Option<bool>,
    one_time_host_keys: &[TrustedHostKey],
    evaluation: &HostKeyEvaluation,
) -> (r: Result<ObservedHostKeyAction, String>)
    ensures
        match observed_host_key_decision(
            *store,
            profile_id@,
            match observation {
                Some(o) => Some(*o),
                None => None,
            },
            expected_profile_matches,
            one_time_host_keys@,
            *evaluation,
        ) {
            Ok(v) => r matches Ok(a) && action_view(a) == v,
            Err(e) => r matches Err(f) && f@ == e,
        },
{
    let observation = match observation {
        Some(o) => o,
        None => return Err(String::from_str("SSH 未收到服务器 host key")),
    };
    let index = match find_profile(&store.profiles, profile_id) {
        Some(i) => i,
        None => {
            let mut e = String::from_str("unknown session: ");
            push_str(&mut e, profile_id);
            return Err(e);
        },
    };
    if expected_profile_matches == Some(false) {
        let mut e = String::from_str("SSH profile changed while establishing session: ");
        push_str(&mut e, profile_id);
        return Err(e);
    }
    let ssh = match crate::host_keys::ssh_ref(&store.profiles[index].connection) {
        Some(ssh) => ssh,
        None => {
            let mut e = String::from_str("profile is not SSH-backed: ");
            push_str(&mut e, profile_id);
            return Err(e);
        },
    };
    let policy = ssh.host_key_policy;
    if crate::host_keys::one_time_trusts_observation(one_time_host_keys, profile_id, &policy, observation) {
        return match &observation.fingerprint_sha256 {
            Ok(fp) => Ok(ObservedHostKeyAction::Accept(host_key_event_text("trusted for this connection only", observation, fp.as_str()))),
            Err(e) => Err(e.clone()),
        };
    }
    if crate::host_keys::profile_trusts_observation(store, profile_id, observation) {
        return match &observation.fingerprint_sha256 {
            Ok(fp) => Ok(ObservedHostKeyAction::Touch(host_key_event_text("verified by profile trust", observation, fp.as_str()))),
            Err(e) => Err(e.clone()),
        };
    }
    match evaluation {
        HostKeyEvaluation::Trusted { fingerprint_sha256, .. } => Ok(ObservedHostKeyAction::Touch(
            host_key_event_text("verified", observation, fingerprint_sha256.as_str()),
        )),
        HostKeyEvaluation::Unknown { fingerprint_sha256, .. } => {
            if policy.mode != crate::profile::HostKeyMode::TrustOnFirstUse {
                let mut e = String::from_str("SSH host key 未受信任: ");
                push_str(&mut e, observation.algorithm.as_str());
                push_str(&mut e, " ");
                push_str(&mut e, fingerprint_sha256.as_str());
                return Err(e);
            }
            Ok(ObservedHostKeyAction::AppendToProfile(
                host_key_event_text("trusted for this profile", observation, fingerprint_sha256.as_str()),
            ))
        },
        HostKeyEvaluation::Mismatch { .. } => Err(describe_host_key_rejection(evaluation)),
    }
}

} // verus!
