use portmate_ssh::auth::{
    jump_runtime_credential, libssh_auth_order_requires_filtered_agent, ordered_auth_methods,
    ssh_uses_libssh_gssapi_backend,
};
use portmate_ssh::identity::{AgentOfferMode, AgentPolicy, AuthMethod, IdentityPolicy, IdentityRef, IdentitySource};
use portmate_ssh::profile::{HostKeyMode, HostKeyPolicy, HostKeyScope, SshConnection};

fn ssh(order: Vec<AuthMethod>, last: Option<AuthMethod>, record: bool, agent: bool, refs: Vec<IdentityRef>) -> SshConnection {
    SshConnection {
        identity_policy: IdentityPolicy { auth_order: order, last_successful: last, record_success: record, identities_only: false },
        agent_policy: AgentPolicy { enabled: agent, offer_mode: AgentOfferMode::AfterProfileKeys },
        identity_refs: refs,
        host_key_policy: HostKeyPolicy { mode: HostKeyMode::TrustOnFirstUse, check_ip: false, trust_scope: HostKeyScope::User },
        trusted_host_keys: vec![],
        tunnels: vec![],
        reconnect: false,
        reconnect_delay_ms: 0,
    }
}

fn agent_ref() -> IdentityRef {
    IdentityRef {
        id: "i".to_string(),
        label: "agent key".to_string(),
        source: IdentitySource::Agent,
        fingerprint_sha256: None,
        path: None,
        secret_ref: None,
    }
}

#[test]
fn auth_order_puts_the_last_success_first() {
    assert_eq!(ordered_auth_methods(&ssh(vec![AuthMethod::PublicKey, AuthMethod::Password], Some(AuthMethod::Password), true, false, vec![])), vec![AuthMethod::Password, AuthMethod::PublicKey]);
    assert_eq!(ordered_auth_methods(&ssh(vec![AuthMethod::PublicKey, AuthMethod::Password], Some(AuthMethod::Password), false, false, vec![])), vec![AuthMethod::PublicKey, AuthMethod::Password]);
    assert_eq!(ordered_auth_methods(&ssh(vec![AuthMethod::PublicKey], Some(AuthMethod::Password), true, false, vec![])), vec![AuthMethod::PublicKey]);
    assert_eq!(ordered_auth_methods(&ssh(vec![AuthMethod::Password, AuthMethod::Password], None, false, false, vec![])), vec![AuthMethod::Password]);
    assert_eq!(ordered_auth_methods(&ssh(vec![], None, false, false, vec![])), vec![AuthMethod::PublicKey, AuthMethod::KeyboardInteractive, AuthMethod::Password]);
}

#[test]
fn filtered_agent_and_gssapi_backend_choice() {
    assert!(libssh_auth_order_requires_filtered_agent(&ssh(vec![AuthMethod::PublicKey], None, false, true, vec![agent_ref()])));
    assert!(!libssh_auth_order_requires_filtered_agent(&ssh(vec![AuthMethod::PublicKey], None, false, false, vec![agent_ref()])));
    assert!(!libssh_auth_order_requires_filtered_agent(&ssh(vec![AuthMethod::Password], None, false, true, vec![agent_ref()])));
    assert!(!libssh_auth_order_requires_filtered_agent(&ssh(vec![AuthMethod::PublicKey], None, false, true, vec![])));
    assert!(ssh_uses_libssh_gssapi_backend(&ssh(vec![AuthMethod::GssapiWithMic, AuthMethod::Password], None, false, false, vec![])));
    assert!(!ssh_uses_libssh_gssapi_backend(&ssh(vec![AuthMethod::Password], None, false, false, vec![])));
    assert!(!ssh_uses_libssh_gssapi_backend(&ssh(vec![AuthMethod::GssapiWithMic, AuthMethod::PublicKey], None, false, true, vec![agent_ref()])));
}

#[test]
fn jump_credentials_are_inherited_without_own_secret() {
    assert_eq!(jump_runtime_credential(Some("pw"), None), Some("pw".to_string()));
    assert_eq!(jump_runtime_credential(Some("pw"), Some("  ")), Some("pw".to_string()));
    assert_eq!(jump_runtime_credential(Some("pw"), Some("vault:1")), None);
    assert_eq!(jump_runtime_credential(Some(""), None), None);
    assert_eq!(jump_runtime_credential(None, None), None);
}
