use base64::Engine;
use portmate_ssh::agent_auth::{
    agent_auth_failure, authenticate_with_agent_plan, effective_secret,
    offer_agent_after_profile_keys, offer_agent_before_profile_keys,
};
use portmate_ssh::agent_protocol::{agent_identity_blob_fingerprint, agent_identity_blob_matches};
use portmate_ssh::identity::{AgentOfferMode, AgentPolicy, IdentityPolicy, IdentityRef, IdentitySource};
use portmate_ssh::profile::{HostKeyMode, HostKeyPolicy, HostKeyScope, SshConnection};

const ED25519: &str = "AAAAC3NzaC1lZDI1NTE5AAAAIAhLsO2cjvuaNmiRlw4TJjIL+yzlPke9KgoXSfTiaqzQ";

fn key_blob() -> Vec<u8> {
    base64::engine::general_purpose::STANDARD.decode(ED25519).unwrap()
}

fn agent_ref(label: &str, path: Option<&str>, fingerprint: Option<&str>) -> IdentityRef {
    IdentityRef {
        id: label.to_string(),
        label: label.to_string(),
        source: IdentitySource::Agent,
        fingerprint_sha256: fingerprint.map(str::to_string),
        path: path.map(str::to_string),
        secret_ref: None,
    }
}

fn file_ref() -> IdentityRef {
    IdentityRef { source: IdentitySource::SystemFile, ..agent_ref("file", Some("~/.ssh/id"), None) }
}

fn ssh(enabled: bool, mode: AgentOfferMode, identities_only: bool, refs: Vec<IdentityRef>) -> SshConnection {
    SshConnection {
        identity_policy: IdentityPolicy { auth_order: vec![], last_successful: None, record_success: false, identities_only },
        agent_policy: AgentPolicy { enabled, offer_mode: mode },
        identity_refs: refs,
        host_key_policy: HostKeyPolicy { mode: HostKeyMode::TrustOnFirstUse, check_ip: false, trust_scope: HostKeyScope::User },
        trusted_host_keys: vec![],
        tunnels: vec![],
        reconnect: false,
        reconnect_delay_ms: 0,
    }
}

#[test]
fn agent_identity_path_matches_exact_comment_bytes() {
    let key = key_blob();
    let exact = agent_ref("agent key", Some("accepted-comment "), None);
    let lossy = agent_ref("agent key", Some("accepted-comment"), None);
    assert!(agent_identity_blob_matches(&key, b"accepted-comment ", &[exact]));
    assert!(!agent_identity_blob_matches(&key, b"accepted-comment ", &[lossy]));
}

#[test]
fn agent_identities_match_by_fingerprint_first() {
    let key = key_blob();
    let fingerprint = agent_identity_blob_fingerprint(&key).unwrap();
    assert!(fingerprint.starts_with("SHA256:"));
    assert_ne!(fingerprint, ED25519);
    let by_fingerprint = agent_ref("other label", Some("other path"), Some(&format!(" {fingerprint} ")));
    assert!(agent_identity_blob_matches(&key, b"any comment", &[by_fingerprint]));
    let wrong = agent_ref("x", None, Some("SHA256:nope"));
    assert!(!agent_identity_blob_matches(&key, b"x", &[wrong]));
    assert_eq!(agent_identity_blob_fingerprint(b"not a key"), None);
    let by_label = agent_ref("work", None, None);
    assert!(agent_identity_blob_matches(&key, b"work", &[by_label.clone()]));
    assert!(!agent_identity_blob_matches(&key, b"work2", &[by_label]));
}

#[test]
fn agent_offers_follow_the_profile_refs() {
    let identities: Vec<(Vec<u8>, String)> =
        (0..8).map(|i| (key_blob(), format!("key{i}"))).collect();
    assert_eq!(authenticate_with_agent_plan(false, AgentOfferMode::BeforeProfileKeys, &[], &identities), vec![0, 1, 2, 3, 4, 5]);
    assert_eq!(authenticate_with_agent_plan(false, AgentOfferMode::Disabled, &[], &identities), Vec::<usize>::new());
    assert_eq!(authenticate_with_agent_plan(true, AgentOfferMode::AfterProfileKeys, &[], &identities), Vec::<usize>::new());
    let refs = vec![file_ref(), agent_ref("key3", None, None), agent_ref("key7", None, None)];
    assert_eq!(authenticate_with_agent_plan(false, AgentOfferMode::AfterProfileKeys, &refs, &identities), vec![3, 7]);
    assert_eq!(authenticate_with_agent_plan(false, AgentOfferMode::AfterProfileKeys, &[file_ref()], &identities).len(), 6);
}

#[test]
fn agent_is_offered_before_or_after_profile_keys() {
    assert!(offer_agent_before_profile_keys(&ssh(true, AgentOfferMode::BeforeProfileKeys, false, vec![]), false));
    assert!(!offer_agent_before_profile_keys(&ssh(true, AgentOfferMode::BeforeProfileKeys, false, vec![]), true));
    assert!(!offer_agent_before_profile_keys(&ssh(true, AgentOfferMode::BeforeProfileKeys, true, vec![]), false));
    assert!(!offer_agent_before_profile_keys(&ssh(false, AgentOfferMode::BeforeProfileKeys, false, vec![]), false));
    assert!(offer_agent_after_profile_keys(&ssh(true, AgentOfferMode::AfterProfileKeys, false, vec![]), false));
    assert!(!offer_agent_after_profile_keys(&ssh(true, AgentOfferMode::AfterProfileKeys, true, vec![]), false));
    assert!(offer_agent_after_profile_keys(&ssh(true, AgentOfferMode::BeforeProfileKeys, true, vec![agent_ref("a", None, None)]), false));
    assert!(!offer_agent_after_profile_keys(&ssh(true, AgentOfferMode::BeforeProfileKeys, false, vec![file_ref()]), false));
}

#[test]
fn agent_auth_failures_explain_what_was_tried() {
    assert_eq!(
        agent_auth_failure(&[], &[], false, false),
        "SSH 认证失败：没有可尝试的认证方式。请配置 identityRefs 或在连接时输入密码。"
    );
    assert_eq!(
        agent_auth_failure(&["publickey".to_string(), "password".to_string()], &["id: 被服务器拒绝".to_string()], true, true),
        "SSH 认证失败，已尝试: publickey, password；密钥详情: id: 被服务器拒绝；当前按 IdentitiesOnly 处理，不会遍历系统 ssh-agent 的全部密钥"
    );
    assert_eq!(effective_secret(Some("".to_string()), Some("saved".to_string())), Some("saved".to_string()));
    assert_eq!(effective_secret(Some("given".to_string()), Some("saved".to_string())), Some("given".to_string()));
    assert_eq!(effective_secret(None, None), None);
}
