//! Jump hosts of an SSH connection: the checks on each hop's endpoint, the
//! host key policy a hop is verified under, and which hop (or the target)
//! a scanned host key belongs to.
use vstd::prelude::*;
use crate::identity::{copy_identity_ref, IdentityRef};
use crate::profile::{HostKeyPolicy, HostKeyScope};
use crate::text::{decimal, opt_view, push_str, str_eq, to_chars, trim, trim_string, u64_to_decimal};

verus! {

/// A host key policy together with the alias that keys are trusted under.
#[derive(Debug)]
pub struct AliasedHostKeyPolicy {
    pub policy: HostKeyPolicy,
    pub alias: Option<String>,
}

/// One jump host that the connection passes through.
#[derive(Debug)]
pub struct JumpHop {
    pub host: String,
    pub port: u16,
    pub username: String,
    pub host_key_policy: Option<AliasedHostKeyPolicy>,
}

/// The error prefix that names hop `index` (counted from one).
pub open spec fn hop_label(index: nat) -> Seq<char> {
    "Jump Host 第 "@ + decimal(index + 1) + " 跳"@
}

fn hop_label_text(index: usize) -> (r: String)
    requires
        index < usize::MAX,
    ensures
        r@ == hop_label(index as nat),
{
    let mut r = String::from_str("Jump Host 第 ");
    let n = u64_to_decimal(index as u64 + 1);
    push_str(&mut r, n.as_str());
    push_str(&mut r, " 跳");
    r
}

/// The endpoint of hop `index`: its host and user name without surrounding
/// white space, each required, and a port other than zero.
pub fn jump_endpoint_details(jump: &JumpHop, index: usize) -> (r: Result<(String, u16, String), String>)
    requires
        index < usize::MAX,
    ensures
        trim(jump.host@).len() == 0 ==> (r matches Err(e) && e@ == hop_label(index as nat) + " 主机不能为空"@),
        trim(jump.host@).len() > 0 && jump.port == 0 ==> (r matches Err(e) && e@ == hop_label(index as nat)
            + " 端口必须在 1-65535 之间"@),
        trim(jump.host@).len() > 0 && jump.port != 0 && trim(jump.username@).len() == 0 ==> (r matches Err(e)
            && e@ == hop_label(index as nat) + " 用户名不能为空"@),
        trim(jump.host@).len() > 0 && jump.port != 0 && trim(jump.username@).len() > 0 ==> (r matches Ok(
            (host, port, user),
        ) && host@ == trim(jump.host@) && port == jump.port && user@ == trim(jump.username@)),
{
    let host = trim_string(jump.host.as_str());
    if to_chars(host.as_str()).len() == 0 {
        let mut e = hop_label_text(index);
        push_str(&mut e, " 主机不能为空");
        return Err(e);
    }
    if jump.port == 0 {
        let mut e = hop_label_text(index);
        push_str(&mut e, " 端口必须在 1-65535 之间");
        return Err(e);
    }
    let username = trim_string(jump.username.as_str());
    if to_chars(username.as_str()).len() == 0 {
        let mut e = hop_label_text(index);
        push_str(&mut e, " 用户名不能为空");
        return Err(e);
    }
    Ok((host, jump.port, username))
}

/// The alias a hop's keys are trusted under unless its policy names one.
pub open spec fn default_jump_alias(jump: JumpHop) -> Seq<char> {
    "jump:"@ + trim(jump.host@) + ":"@ + decimal(jump.port as nat)
}

/// The policy a hop is verified under: its own when it has one, else the
/// connection's with trust limited to the profile.
pub open spec fn jump_policy(base: HostKeyPolicy, jump: JumpHop) -> HostKeyPolicy {
    match jump.host_key_policy {
        Some(custom) => custom.policy,
        None => HostKeyPolicy { trust_scope: HostKeyScope::Profile, ..base },
    }
}

/// The alias of a hop: the one its own policy names, without surrounding
/// white space, when that is not blank; else the default alias.
pub open spec fn jump_alias(jump: JumpHop) -> Seq<char> {
    match jump.host_key_policy {
        Some(custom) => match custom.alias {
            Some(a) => if trim(a@).len() > 0 {
                trim(a@)
            } else {
                default_jump_alias(jump)
            },
            None => default_jump_alias(jump),
        },
        None => default_jump_alias(jump),
    }
}

fn default_jump_alias_text(jump: &JumpHop) -> (r: String)
    ensures
        r@ == default_jump_alias(*jump),
{
    let mut r = String::from_str("jump:");
    let host = trim_string(jump.host.as_str());
    push_str(&mut r, host.as_str());
    push_str(&mut r, ":");
    let port = u64_to_decimal(jump.port as u64);
    push_str(&mut r, port.as_str());
    r
}

/// The host key policy and alias that hop `jump` of a connection with the
/// policy `base` is verified under.
pub fn jump_host_key_policy(base: &AliasedHostKeyPolicy, jump: &JumpHop) -> (r: AliasedHostKeyPolicy)
    ensures
        r.policy == jump_policy(base.policy, *jump),
        r.alias matches Some(a) && a@ == jump_alias(*jump),
{
    let default_alias = default_jump_alias_text(jump);
    match &jump.host_key_policy {
        Some(custom) => {
            let alias = match &custom.alias {
                Some(a) => {
                    let t = trim_string(a.as_str());
                    if to_chars(t.as_str()).len() > 0 {
                        t
                    } else {
                        default_alias
                    }
                },
                None => default_alias,
            };
            AliasedHostKeyPolicy { policy: custom.policy, alias: Some(alias) }
        },
        None => AliasedHostKeyPolicy {
            policy: HostKeyPolicy { trust_scope: HostKeyScope::Profile, ..base.policy },
            alias: Some(default_alias),
        },
    }
}

/// A host key observed while scanning: where it was seen and the alias it
/// was scanned under.
#[derive(Debug)]
pub struct ScanObservation {
    pub host: String,
    pub port: u16,
    pub alias: Option<String>,
}

/// The observation is of the connection's own target.
pub open spec fn observes_target(
    profile_id: Seq<char>,
    host: Seq<char>,
    port: u16,
    base: AliasedHostKeyPolicy,
    observation: ScanObservation,
) -> bool {
    &&& observation.host@ == host
    &&& observation.port == port
    &&& opt_view(observation.alias) == Some(
        match base.alias {
            Some(a) => a@,
            None => profile_id,
        },
    )
}

/// The observation is of hop `jump`.
pub open spec fn observes_jump(jump: JumpHop, observation: ScanObservation) -> bool {
    &&& observation.host@ == jump.host@
    &&& observation.port == jump.port
    &&& opt_view(observation.alias) == Some(jump_alias(jump))
}

/// The first hop from `k` on that the observation is of.
pub open spec fn first_observed_jump(jumps: Seq<JumpHop>, observation: ScanObservation, k: int) -> Option<int>
    decreases jumps.len() - k,
{
    if k < 0 || k >= jumps.len() {
        None
    } else if observes_jump(jumps[k], observation) {
        Some(k)
    } else {
        first_observed_jump(jumps, observation, k + 1)
    }
}

fn opt_eq(a: &Option<String>, b: &str) -> (r: bool)
    ensures
        r == (opt_view(*a) == Some(b@)),
{
    match a {
        Some(s) => str_eq(s.as_str(), b),
        None => false,
    }
}

fn copy_aliased(p: &AliasedHostKeyPolicy) -> (r: AliasedHostKeyPolicy)
    ensures
        r.policy == p.policy,
        opt_view(r.alias) == opt_view(p.alias),
{
    AliasedHostKeyPolicy {
        policy: p.policy,
        alias: match &p.alias {
            Some(a) => Some(a.clone()),
            None => None,
        },
    }
}

/// The policy a scanned host key is to be trusted under: the connection's
/// own when the key is the target's, else that of the first hop it was
/// seen at; an error when it belongs to neither.
pub fn host_key_scan_policy_for_observation(
    profile_id: &str,
    endpoint_host: &str,
    endpoint_port: u16,
    base: &AliasedHostKeyPolicy,
    jumps: &Vec<JumpHop>,
    observation: &ScanObservation,
) -> (r: Result<AliasedHostKeyPolicy, String>)
    ensures
        observes_target(profile_id@, endpoint_host@, endpoint_port, *base, *observation) ==> (r matches Ok(p)
            && p.policy == base.policy && opt_view(p.alias) == opt_view(base.alias)),
        !observes_target(profile_id@, endpoint_host@, endpoint_port, *base, *observation) ==> match first_observed_jump(
            jumps@,
            *observation,
            0,
        ) {
            Some(i) => r matches Ok(p) && p.policy == jump_policy(base.policy, jumps@[i]) && (p.alias matches Some(
                a,
            ) && a@ == jump_alias(jumps@[i])),
            None => r matches Err(e) && e@ == "Host Key 扫描结果与当前 SSH 目标或 Jump Host 不匹配，请重新扫描"@,
        },
{
    let target_alias = match &base.alias {
        Some(a) => a.as_str(),
        None => profile_id,
    };
    if str_eq(observation.host.as_str(), endpoint_host) && observation.port == endpoint_port && opt_eq(
        &observation.alias,
        target_alias,
    ) {
        return Ok(copy_aliased(base));
    }
    let mut k: usize = 0;
    while k < jumps.len()
        invariant
            k <= jumps@.len(),
            !observes_target(profile_id@, endpoint_host@, endpoint_port, *base, *observation),
            first_observed_jump(jumps@, *observation, 0) == first_observed_jump(jumps@, *observation, k as int),
        decreases jumps@.len() - k,
    {
        let jump = &jumps[k];
        let policy = jump_host_key_policy(base, jump);
        let alias_matches = match (&observation.alias, &policy.alias) {
            (Some(o), Some(p)) => str_eq(o.as_str(), p.as_str()),
            _ => false,
        };
        if str_eq(observation.host.as_str(), jump.host.as_str()) && observation.port == jump.port
            && alias_matches {
            return Ok(policy);
        }
        k = k + 1;
    }
    Err(String::from_str("Host Key 扫描结果与当前 SSH 目标或 Jump Host 不匹配，请重新扫描"))
}

/// The credential a hop inherits from the connection: none when the hop
/// names its own secret, else the connection's when it is not empty.
pub fn jump_runtime_credential(inherited: Option<&str>, jump_secret_ref: Option<&str>) -> (r: Option<String>)
    ensures
        (jump_secret_ref matches Some(j) && trim(j@).len() > 0) ==> r is None,
        !(jump_secret_ref matches Some(j) && trim(j@).len() > 0) ==> match inherited {
            Some(i) => if i@.len() > 0 {
                r matches Some(c) && c@ == i@
            } else {
                r is None
            },
            None => r is None,
        },
{
    if let Some(j) = jump_secret_ref {
        let t = trim_string(j);
        if to_chars(t.as_str()).len() > 0 {
            return None;
        }
    }
    match inherited {
        Some(i) => if to_chars(i).len() > 0 {
            Some(String::from_str(i))
        } else {
            None
        },
        None => None,
    }
}

/// The identities of the connection that a hop may use: those with the id
/// it names, or all when it names none.
pub open spec fn jump_identities(refs: Seq<IdentityRef>, identity_ref: Option<Seq<char>>) -> Seq<IdentityRef> {
    match identity_ref {
        Some(id) => if trim(id).len() > 0 {
            refs.filter(|r: IdentityRef| r.id@ == trim(id))
        } else {
            refs
        },
        None => refs,
    }
}

pub fn jump_identity_refs(refs: &Vec<IdentityRef>, identity_ref: Option<&str>) -> (r: Vec<IdentityRef>)
    ensures
        r@ == jump_identities(
            refs@,
            match identity_ref {
                Some(s) => Some(s@),
                None => None,
            },
        ),
{
    let wanted = match identity_ref {
        Some(s) => {
            let t = trim_string(s);
            if to_chars(t.as_str()).len() > 0 {
                Some(t)
            } else {
                None
            }
        },
        None => None,
    };
    let mut out: Vec<IdentityRef> = Vec::new();
    let mut i: usize = 0;
    while i < refs.len()
        invariant
            i <= refs@.len(),
            out@ == match wanted {
                Some(w) => refs@.subrange(0, i as int).filter(|r: IdentityRef| r.id@ == w@),
                None => refs@.subrange(0, i as int),
            },
        decreases refs@.len() - i,
    {
        let ghost before = refs@.subrange(0, i as int);
        assert(refs@.subrange(0, i + 1) =~= before.push(refs@[i as int]));
        let keep = match &wanted {
            Some(w) => str_eq(refs[i].id.as_str(), w.as_str()),
            None => true,
        };
        if keep {
            out.push(copy_identity_ref(&refs[i]));
        }
        proof {
            if wanted is Some {
                before.lemma_filter_push(refs@[i as int], |r: IdentityRef| r.id@ == wanted->0@);
            }
        }
        i = i + 1;
    }
    assert(refs@.subrange(0, refs@.len() as int) =~= refs@);
    proof {
        if wanted is Some {
            let t = wanted->0@;
            assert(identity_ref is Some && trim(identity_ref->0@) == t);
            assert((|r: IdentityRef| r.id@ == wanted->0@) =~= (|r: IdentityRef| r.id@ == t));
        }
    }
    out
}

} // verus!
