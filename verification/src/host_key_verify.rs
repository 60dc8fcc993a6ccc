//! The handshake's verdict on a server key, and the keys that a
//! "trust once" decision creates for a single connection.
use vstd::prelude::*;
use crate::host_key_store::{describe_host_key_rejection, policy_lookup, persistent_host_key_policy, rejection_text};
use crate::host_keys::{HostKeyEvaluation, HostKeyObservation};
use crate::profile::{HostKeyMode, HostKeyPolicy, HostKeyScope, SessionStore, TrustedHostKey};
use crate::text::{opt_view, push_str, str_eq};

verus! {

/// A trusted key counts for the connection unless the policy asks every
/// time; then only a key trusted once for it does.
pub open spec fn key_allowed(policy: HostKeyPolicy, matched_key_id: Seq<char>, one_time_ids: Seq<String>) -> bool {
    policy.mode != HostKeyMode::AskEveryTime || exists|i: int|
        0 <= i < one_time_ids.len() && (#[trigger] one_time_ids[i])@ == matched_key_id
}

pub fn trusted_host_key_allowed(policy: &HostKeyPolicy, matched_key_id: &str, one_time_host_key_ids: &[String]) -> (r: bool)
    ensures
        r == key_allowed(*policy, matched_key_id@, one_time_host_key_ids@),
{
    if policy.mode != HostKeyMode::AskEveryTime {
        return true;
    }
    let mut i: usize = 0;
    while i < one_time_host_key_ids.len()
        invariant
            i <= one_time_host_key_ids@.len(),
            forall|j: int| 0 <= j < i ==> (#[trigger] one_time_host_key_ids@[j])@ != matched_key_id@,
        decreases one_time_host_key_ids@.len() - i,
    {
        if str_eq(one_time_host_key_ids[i].as_str(), matched_key_id) {
            return true;
        }
        i = i + 1;
    }
    false
}

/// The handshake's verdict on a server key, given how the trusted keys
/// judge it (or why they could not).
pub open spec fn handshake_verdict(
    policy: HostKeyPolicy,
    evaluation: Result<HostKeyEvaluation, String>,
    one_time_ids: Seq<String>,
) -> Result<(), Seq<char>> {
    match evaluation {
        Ok(e) => match e {
            HostKeyEvaluation::Trusted { matched_key_id, fingerprint_sha256 } => if key_allowed(
                policy,
                matched_key_id@,
                one_time_ids,
            ) {
                Ok(())
            } else {
                Err("SSH host key requires confirmation for this connection: "@ + fingerprint_sha256@)
            },
            HostKeyEvaluation::Unknown { .. } => if policy.mode == HostKeyMode::TrustOnFirstUse {
                Ok(())
            } else {
                Err(rejection_text(e))
            },
            HostKeyEvaluation::Mismatch { .. } => Err(rejection_text(e)),
        },
        Err(error) => Err("host key fingerprint 计算失败: "@ + error@),
    }
}

/// Accepts or refuses a server key during the handshake: a trusted key
/// when it counts for this connection, an unknown one when the policy
/// trusts on first use.
pub fn verify_ssh_host_key_observation(
    policy: &HostKeyPolicy,
    evaluation: &Result<HostKeyEvaluation, String>,
    one_time_host_key_ids: &[String],
) -> (r: Result<(), String>)
    ensures
        match handshake_verdict(*policy, *evaluation, one_time_host_key_ids@) {
            Ok(()) => r is Ok,
            Err(e) => r matches Err(f) && f@ == e,
        },
{
    match evaluation {
        Ok(HostKeyEvaluation::Trusted { matched_key_id, fingerprint_sha256 }) => {
            if trusted_host_key_allowed(policy, matched_key_id.as_str(), one_time_host_key_ids) {
                Ok(())
            } else {
                let mut e = String::from_str("SSH host key requires confirmation for this connection: ");
                push_str(&mut e, fingerprint_sha256.as_str());
                Err(e)
            }
        },
        Ok(other) => {
            if let HostKeyEvaluation::Unknown { .. } = other {
                if policy.mode == HostKeyMode::TrustOnFirstUse {
                    return Ok(());
                }
            }
            Err(describe_host_key_rejection(other))
        },
        Err(error) => {
            let mut e = String::from_str("host key fingerprint 计算失败: ");
            push_str(&mut e, error.as_str());
            Err(e)
        },
    }
}

/// The key that trusts `observation` for one connection of the profile:
/// scoped to the profile, labelled "trust once", seen at `now`, under the
/// fresh id `id`. Refused when the key's fingerprint is unknown.
pub open spec fn one_time_key_for(
    profile_id: Seq<char>,
    observation: HostKeyObservation,
    id: Seq<char>,
    now: i64,
    key: TrustedHostKey,
) -> bool {
    &&& observation.fingerprint_sha256 matches Ok(fp) && key.fingerprint_sha256@ == fp@
    &&& key.id@ == id
    &&& opt_view(key.profile_id) == Some(profile_id)
    &&& key.alias@ == observation.target_alias@
    &&& key.host@ == observation.host@
    &&& key.port == observation.port
    &&& key.algorithm@ == observation.algorithm@
    &&& key.public_key_base64@ == observation.public_key_base64@
    &&& key.scope == HostKeyScope::Profile
    &&& opt_view(key.label) == Some("trust once"@)
    &&& key.first_seen == now
    &&& key.last_seen == now
}

pub fn temporary_trusted_host_key_for_policy(
    profile_id: &str,
    observation: &HostKeyObservation,
    id: &str,
    now: i64,
) -> (r: Result<TrustedHostKey, String>)
    ensures
        match observation.fingerprint_sha256 {
            Ok(_) => r matches Ok(k) && one_time_key_for(profile_id@, *observation, id@, now, k),
            Err(e) => r matches Err(f) && f@ == e@,
        },
{
    let fingerprint = match &observation.fingerprint_sha256 {
        Ok(fp) => fp.clone(),
        Err(e) => return Err(e.clone()),
    };
    Ok(
        TrustedHostKey {
            id: String::from_str(id),
            profile_id: Some(String::from_str(profile_id)),
            alias: observation.target_alias.clone(),
            host: observation.host.clone(),
            port: observation.port,
            algorithm: observation.algorithm.clone(),
            fingerprint_sha256: fingerprint,
            public_key_base64: observation.public_key_base64.clone(),
            scope: HostKeyScope::Profile,
            label: Some(String::from_str("trust once")),
            first_seen: now,
            last_seen: now,
        },
    )
}

/// The one-connection key for a profile of the store, which must exist and
/// be SSH.
pub fn temporary_trusted_host_key(
    store: &SessionStore,
    profile_id: &str,
    observation: &HostKeyObservation,
    id: &str,
    now: i64,
) -> (r: Result<TrustedHostKey, String>)
    ensures
        match policy_lookup(*store, profile_id@) {
            Err(e) => r matches Err(f) && f@ == e,
            Ok(_) => match observation.fingerprint_sha256 {
                Ok(_) => r matches Ok(k) && one_time_key_for(profile_id@, *observation, id@, now, k),
                Err(e) => r matches Err(f) && f@ == e@,
            },
        },
{
    match persistent_host_key_policy(store, profile_id) {
        Ok(_) => temporary_trusted_host_key_for_policy(profile_id, observation, id, now),
        Err(e) => Err(e),
    }
}

} // verus!
