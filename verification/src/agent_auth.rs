//! Public-key authentication with a running SSH agent: which of the
//! agent's identities are offered and in what order, when the agent is
//! tried relative to the profile's own keys, and the error reported when
//! no method succeeds.
use vstd::prelude::*;
use crate::agent_protocol::{agent_identity_blob_matches, identity_selected};
use crate::identity::{AgentOfferMode, IdentityRef, IdentitySource};
use crate::profile::SshConnection;
use crate::text::push_str;

verus! {

/// How many of the agent's identities are offered when the profile names
/// none of them.
pub const MAX_UNFILTERED_AGENT_ATTEMPTS: usize = 6;

/// The identity references that name agent keys.
pub open spec fn agent_refs(refs: Seq<IdentityRef>) -> Seq<IdentityRef>
    decreases refs.len(),
{
    if refs.len() == 0 {
        seq![]
    } else if refs.last().source == IdentitySource::Agent {
        agent_refs(refs.drop_last()).push(refs.last())
    } else {
        agent_refs(refs.drop_last())
    }
}

/// The positions of the agent identities to offer, in order: every
/// identity the agent references admit, or, when the profile names no
/// agent identity and does not restrict itself to its own identities, the
/// first six the agent lists.
pub open spec fn agent_offers(
    refs: Seq<IdentityRef>,
    unfiltered: bool,
    identities: Seq<(Seq<u8>, Seq<u8>)>,
) -> Seq<int>
    decreases identities.len(),
{
    if identities.len() == 0 {
        seq![]
    } else {
        let earlier = agent_offers(refs, unfiltered, identities.drop_last());
        let last = identities.last();
        if unfiltered {
            if earlier.len() < MAX_UNFILTERED_AGENT_ATTEMPTS {
                earlier.push(identities.len() - 1)
            } else {
                earlier
            }
        } else if identity_selected(refs, last.0, last.1) {
            earlier.push(identities.len() - 1)
        } else {
            earlier
        }
    }
}

/// The identities' keys and comments as bytes.
pub open spec fn identity_bytes(identities: Seq<(Vec<u8>, String)>) -> Seq<(Seq<u8>, Seq<u8>)> {
    identities.map_values(|p: (Vec<u8>, String)| (p.0@, vstd::utf8::encode_utf8(p.1@)))
}

fn agent_identity_refs(refs: &[IdentityRef]) -> (r: Vec<IdentityRef>)
    ensures
        r@ == agent_refs(refs@),
{
    let mut out: Vec<IdentityRef> = Vec::new();
    let mut i: usize = 0;
    while i < refs.len()
        invariant
            i <= refs@.len(),
            out@ == agent_refs(refs@.take(i as int)),
        decreases refs@.len() - i,
    {
        proof {
            assert(refs@.take(i + 1).drop_last() =~= refs@.take(i as int));
        }
        if refs[i].source == IdentitySource::Agent {
            out.push(crate::identity::copy_identity_ref(&refs[i]));
        }
        i = i + 1;
    }
    assert(refs@.take(refs@.len() as int) =~= refs@);
    out
}

/// Which of the agent's identities (key blob and comment, in the order the
/// agent lists them) to offer to the server, in order; the caller offers
/// them one by one until the server accepts one.
pub fn authenticate_with_agent_plan(
    identities_only: bool,
    offer_mode: AgentOfferMode,
    identity_refs: &[IdentityRef],
    identities: &[(Vec<u8>, String)],
) -> (r: Vec<usize>)
    ensures
        offer_mode == AgentOfferMode::Disabled ==> r@.len() == 0,
        offer_mode != AgentOfferMode::Disabled ==> r@.map_values(|i: usize| i as int) == agent_offers(
            agent_refs(identity_refs@),
            !identities_only && agent_refs(identity_refs@).len() == 0,
            identity_bytes(identities@),
        ),
{
    if offer_mode == AgentOfferMode::Disabled {
        return Vec::new();
    }
    let refs = agent_identity_refs(identity_refs);
    let unfiltered = !identities_only && refs.len() == 0;
    let ghost bytes = identity_bytes(identities@);
    let mut plan: Vec<usize> = Vec::new();
    let mut i: usize = 0;
    while i < identities.len()
        invariant
            i <= identities@.len(),
            bytes == identity_bytes(identities@),
            refs@ == agent_refs(identity_refs@),
            unfiltered == (!identities_only && refs@.len() == 0),
            plan@.map_values(|k: usize| k as int) == agent_offers(refs@, unfiltered, bytes.take(i as int)),
            plan@.len() <= i,
        decreases identities@.len() - i,
    {
        proof {
            assert(bytes.take(i + 1).drop_last() =~= bytes.take(i as int));
            assert(bytes.take(i + 1).last() == bytes[i as int]);
        }
        let take = if unfiltered {
            plan.len() < MAX_UNFILTERED_AGENT_ATTEMPTS
        } else {
            agent_identity_blob_matches(
                identities[i].0.as_slice(),
                identities[i].1.as_str().as_bytes(),
                refs.as_slice(),
            )
        };
        let ghost before = plan@;
        if take {
            plan.push(i);
            assert(plan@.map_values(|k: usize| k as int) =~= before.map_values(|k: usize| k as int).push(i as int));
        }
        i = i + 1;
    }
    assert(bytes.take(identities@.len() as int) =~= bytes);
    plan
}

/// Some identity reference names an agent key.
pub open spec fn has_agent_ref(refs: Seq<IdentityRef>) -> bool {
    exists|i: int| 0 <= i < refs.len() && (#[trigger] refs[i]).source == IdentitySource::Agent
}

fn names_agent_key(refs: &Vec<IdentityRef>) -> (r: bool)
    ensures
        r == has_agent_ref(refs@),
{
    let mut i: usize = 0;
    while i < refs.len()
        invariant
            i <= refs@.len(),
            forall|k: int| 0 <= k < i ==> (#[trigger] refs@[k]).source != IdentitySource::Agent,
        decreases refs@.len() - i,
    {
        if refs[i].source == IdentitySource::Agent {
            return true;
        }
        i = i + 1;
    }
    false
}

/// Whether the agent is offered before the profile's own keys.
pub fn offer_agent_before_profile_keys(ssh: &SshConnection, agent_attempted: bool) -> (r: bool)
    ensures
        r == (ssh.agent_policy.enabled && !agent_attempted && !ssh.identity_policy.identities_only
            && ssh.agent_policy.offer_mode == AgentOfferMode::BeforeProfileKeys),
{
    ssh.agent_policy.enabled && !agent_attempted && !ssh.identity_policy.identities_only
        && ssh.agent_policy.offer_mode == AgentOfferMode::BeforeProfileKeys
}

/// Whether the agent is offered after the profile's own keys: when it was
/// not tried yet, and the profile asks for it then or names an agent key,
/// unless it offers only its own identities and names no agent key.
pub fn offer_agent_after_profile_keys(ssh: &SshConnection, agent_attempted: bool) -> (r: bool)
    ensures
        r == (ssh.agent_policy.enabled && !agent_attempted && (ssh.agent_policy.offer_mode
            == AgentOfferMode::AfterProfileKeys || has_agent_ref(ssh.identity_refs@)) && (
        !ssh.identity_policy.identities_only || has_agent_ref(ssh.identity_refs@))),
{
    if !ssh.agent_policy.enabled || agent_attempted {
        return false;
    }
    let named = names_agent_key(&ssh.identity_refs);
    (ssh.agent_policy.offer_mode == AgentOfferMode::AfterProfileKeys || named) && (
    !ssh.identity_policy.identities_only || named)
}

/// The texts of a list of strings.
pub open spec fn texts(v: Seq<String>) -> Seq<Seq<char>> {
    v.map_values(|s: String| s@)
}

/// The error when no method succeeded.
pub open spec fn agent_auth_failure_text(
    attempted: Seq<Seq<char>>,
    key_errors: Seq<Seq<char>>,
    agent_enabled: bool,
    identities_only: bool,
) -> Seq<char> {
    (if attempted.len() == 0 {
        "SSH 认证失败：没有可尝试的认证方式。请配置 identityRefs 或在连接时输入密码。"@
    } else {
        "SSH 认证失败，已尝试: "@ + crate::libssh_auth::joined(attempted, ", "@)
    }) + (if key_errors.len() == 0 {
        seq![]
    } else {
        "；密钥详情: "@ + crate::libssh_auth::joined(key_errors, " | "@)
    }) + (if agent_enabled && identities_only {
        "；当前按 IdentitiesOnly 处理，不会遍历系统 ssh-agent 的全部密钥"@
    } else {
        seq![]
    })
}

fn join_all(parts: &[String], sep: &str) -> (r: String)
    ensures
        r@ == crate::libssh_auth::joined(texts(parts@), sep@),
{
    let mut s = String::new();
    let mut i: usize = 0;
    while i < parts.len()
        invariant
            i <= parts@.len(),
            s@ == crate::libssh_auth::joined(texts(parts@.take(i as int)), sep@),
        decreases parts@.len() - i,
    {
        proof {
            assert(texts(parts@.take(i + 1)).drop_last() =~= texts(parts@.take(i as int)));
            assert(texts(parts@.take(i + 1)).last() == parts@[i as int]@);
            if i == 0 {
                assert(texts(parts@.take(1)) =~= seq![parts@[0]@]);
            }
        }
        if i > 0 {
            push_str(&mut s, sep);
        }
        push_str(&mut s, parts[i].as_str());
        i = i + 1;
    }
    assert(parts@.take(parts@.len() as int) =~= parts@);
    s
}

/// The error reported when every method of the order failed: what was
/// attempted, why keys failed, and a note when the agent is restricted to
/// the profile's identities.
pub fn agent_auth_failure(
    attempted: &[String],
    key_errors: &[String],
    agent_enabled: bool,
    identities_only: bool,
) -> (r: String)
    ensures
        r@ == agent_auth_failure_text(texts(attempted@), texts(key_errors@), agent_enabled, identities_only),
{
    let mut s = if attempted.len() == 0 {
        String::from_str("SSH 认证失败：没有可尝试的认证方式。请配置 identityRefs 或在连接时输入密码。")
    } else {
        let mut m = String::from_str("SSH 认证失败，已尝试: ");
        let joined = join_all(attempted, ", ");
        push_str(&mut m, joined.as_str());
        m
    };
    let ghost first = s@;
    if key_errors.len() > 0 {
        push_str(&mut s, "；密钥详情: ");
        let joined = join_all(key_errors, " | ");
        push_str(&mut s, joined.as_str());
    }
    let ghost second = s@;
    if agent_enabled && identities_only {
        push_str(&mut s, "；当前按 IdentitiesOnly 处理，不会遍历系统 ssh-agent 的全部密钥");
    }
    proof {
        if key_errors@.len() == 0 {
            assert(second =~= first + seq![]);
        }
        if !(agent_enabled && identities_only) {
            assert(s@ =~= second + seq![]);
        }
    }
    s
}

/// A secret given for this connection, when not empty, else the saved one.
pub fn effective_secret(given: Option<String>, saved: Option<String>) -> (r: Option<String>)
    ensures
        r == match given {
            Some(g) => if g@.len() > 0 {
                Some(g)
            } else {
                saved
            },
            None => saved,
        },
{
    match given {
        Some(g) => {
            if g.unicode_len() > 0 {
                Some(g)
            } else {
                saved
            }
        },
        None => saved,
    }
}

} // verus!
