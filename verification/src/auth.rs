//! Choice of authentication methods and credentials for an SSH connection.
use vstd::prelude::*;
pub use crate::jump_hosts::jump_runtime_credential;
use crate::identity::{AuthMethod, IdentitySource};
use crate::profile::SshConnection;
use crate::text::{has_non_ws, str_has_non_ws};

verus! {

/// `acc` followed by the methods of `order` that are not yet in it, in order.
pub open spec fn append_new_methods(acc: Seq<AuthMethod>, order: Seq<AuthMethod>) -> Seq<AuthMethod>
    decreases order.len(),
{
    if order.len() == 0 {
        acc
    } else {
        let a = append_new_methods(acc, order.drop_last());
        if a.contains(order.last()) {
            a
        } else {
            a.push(order.last())
        }
    }
}

/// The order in which a connection tries authentication methods: the last
/// successful one first (when successes are recorded and it is still
/// configured), then the configured order without repeats, and a default
/// order when nothing is configured.
pub open spec fn auth_method_order(ssh: SshConnection) -> Seq<AuthMethod> {
    let order = ssh.identity_policy.auth_order@;
    let first = match ssh.identity_policy.last_successful {
        Some(m) => if ssh.identity_policy.record_success && order.contains(m) {
            seq![m]
        } else {
            seq![]
        },
        None => seq![],
    };
    let o = append_new_methods(first, order);
    if o.len() == 0 {
        seq![AuthMethod::PublicKey, AuthMethod::KeyboardInteractive, AuthMethod::Password]
    } else {
        o
    }
}

/// Public-key authentication through the agent needs the filtering proxy:
/// public keys are configured, the agent is enabled and an identity comes
/// from the agent.
pub open spec fn needs_filtered_agent(ssh: SshConnection) -> bool {
    &&& ssh.identity_policy.auth_order@.contains(AuthMethod::PublicKey)
    &&& ssh.agent_policy.enabled
    &&& exists|i: int| 0 <= i < ssh.identity_refs@.len() && (#[trigger] ssh.identity_refs@[i]).source == IdentitySource::Agent
}

/// The connection goes through the libssh backend for GSSAPI: GSSAPI is
/// configured, every configured method is one that backend supports, and no
/// filtered agent is needed.
pub open spec fn uses_gssapi_backend(ssh: SshConnection) -> bool {
    let order = ssh.identity_policy.auth_order@;
    &&& order.contains(AuthMethod::GssapiWithMic)
    &&& forall|i: int| 0 <= i < order.len() ==> match #[trigger] order[i] {
        AuthMethod::GssapiWithMic | AuthMethod::PublicKey | AuthMethod::KeyboardInteractive
        | AuthMethod::Password | AuthMethod::NoAuthentication => true,
    }
    &&& !needs_filtered_agent(ssh)
}

fn methods_contain(v: &Vec<AuthMethod>, m: AuthMethod) -> (r: bool)
    ensures
        r == v@.contains(m),
{
    let mut i: usize = 0;
    while i < v.len()
        invariant
            i <= v@.len(),
            forall|k: int| 0 <= k < i ==> v@[k] != m,
        decreases v@.len() - i,
    {
        if v[i] == m {
            assert(v@[i as int] == m);
            return true;
        }
        i = i + 1;
    }
    false
}

/// The authentication methods to try, in order.
pub fn ordered_auth_methods(ssh: &SshConnection) -> (r: Vec<AuthMethod>)
    ensures
        r@ == auth_method_order(*ssh),
{
    let order = &ssh.identity_policy.auth_order;
    let mut ordered: Vec<AuthMethod> = Vec::new();
    if let Some(last) = ssh.identity_policy.last_successful {
        if ssh.identity_policy.record_success && methods_contain(order, last) {
            ordered.push(last);
        }
    }
    let ghost first = ordered@;
    assert(first =~= match ssh.identity_policy.last_successful {
        Some(m) => if ssh.identity_policy.record_success && order@.contains(m) {
            seq![m]
        } else {
            seq![]
        },
        None => seq![],
    });
    let mut i: usize = 0;
    while i < order.len()
        invariant
            i <= order@.len(),
            ordered@ == append_new_methods(first, order@.subrange(0, i as int)),
        decreases order@.len() - i,
    {
        let m = order[i];
        proof {
            assert(order@.subrange(0, i + 1).drop_last() =~= order@.subrange(0, i as int));
        }
        if !methods_contain(&ordered, m) {
            ordered.push(m);
        }
        i = i + 1;
    }
    assert(order@.subrange(0, order@.len() as int) =~= order@);
    if ordered.len() == 0 {
        ordered.push(AuthMethod::PublicKey);
        ordered.push(AuthMethod::KeyboardInteractive);
        ordered.push(AuthMethod::Password);
        assert(ordered@ =~= seq![
            AuthMethod::PublicKey,
            AuthMethod::KeyboardInteractive,
            AuthMethod::Password,
        ]);
    }
    ordered
}

/// Whether the libssh public-key path must go through the agent filter.
pub fn libssh_auth_order_requires_filtered_agent(ssh: &SshConnection) -> (r: bool)
    ensures
        r == needs_filtered_agent(*ssh),
{
    if !methods_contain(&ssh.identity_policy.auth_order, AuthMethod::PublicKey)
        || !ssh.agent_policy.enabled {
        return false;
    }
    let mut i: usize = 0;
    while i < ssh.identity_refs.len()
        invariant
            i <= ssh.identity_refs@.len(),
            ssh.identity_policy.auth_order@.contains(AuthMethod::PublicKey),
            ssh.agent_policy.enabled,
            forall|k: int| 0 <= k < i ==> (#[trigger] ssh.identity_refs@[k]).source != IdentitySource::Agent,
        decreases ssh.identity_refs@.len() - i,
    {
        let is_agent = match ssh.identity_refs[i].source {
            IdentitySource::Agent => true,
            _ => false,
        };
        if is_agent {
            assert(ssh.identity_refs@[i as int].source == IdentitySource::Agent);
            return true;
        }
        i = i + 1;
    }
    false
}

/// Whether the connection authenticates through the libssh GSSAPI backend.
pub fn ssh_uses_libssh_gssapi_backend(ssh: &SshConnection) -> (r: bool)
    ensures
        r == uses_gssapi_backend(*ssh),
{
    let order = &ssh.identity_policy.auth_order;
    if !methods_contain(order, AuthMethod::GssapiWithMic) {
        return false;
    }
    // Every method of the enumeration is supported by the backend.
    assert forall|i: int| 0 <= i < order@.len() implies match #[trigger] order@[i] {
        AuthMethod::GssapiWithMic | AuthMethod::PublicKey | AuthMethod::KeyboardInteractive
        | AuthMethod::Password | AuthMethod::NoAuthentication => true,
    } by {}
    !libssh_auth_order_requires_filtered_agent(ssh)
}

} // verus!
