use portmate_ssh::host_key_store::{
    apply_persistent_host_key_decision, describe_host_key_rejection, find_key,
    host_key_scan_connection_snapshot, host_key_update_incoming, mirror_persistent_host_keys,
    persist_observed_host_key, persistent_host_key_policy, touch_observed_host_key,
    update_host_key_in_store, HostKeyUpdateRequest, ObservedHostKeyAction,
};
use portmate_ssh::host_keys::{
    delete_host_keys_from_store, prune_orphaned_host_keys, one_time_trusts_observation, persistent_host_key_matches_observation,
    profile_trusts_observation, HostKeyEvaluation, HostKeyObservation,
};
use portmate_ssh::host_key_verify::{
    temporary_trusted_host_key, temporary_trusted_host_key_for_policy, trusted_host_key_allowed,
    verify_ssh_host_key_observation,
};
use portmate_ssh::identity::{AgentOfferMode, AgentPolicy, IdentityPolicy};
use portmate_ssh::one_time_keys::OneTimeHostKeys;
use portmate_ssh::profile::{
    ConnectionConfig, HostKeyMode, HostKeyPolicy, HostKeyScope, SessionProfile, SessionStore,
    SshConnection, TrustedHostKey,
};

fn policy(mode: HostKeyMode) -> HostKeyPolicy {
    HostKeyPolicy { mode, check_ip: true, trust_scope: HostKeyScope::Profile }
}

fn key(id: &str, profile: Option<&str>, fingerprint: &str) -> TrustedHostKey {
    TrustedHostKey {
        id: id.to_string(),
        profile_id: profile.map(str::to_string),
        alias: "server".to_string(),
        host: "10.0.0.1".to_string(),
        port: 22,
        algorithm: "ssh-ed25519".to_string(),
        fingerprint_sha256: fingerprint.to_string(),
        public_key_base64: "AAAA".to_string(),
        scope: HostKeyScope::Profile,
        label: None,
        first_seen: 100,
        last_seen: 200,
    }
}

fn ssh(keys: Vec<TrustedHostKey>, mode: HostKeyMode) -> SshConnection {
    SshConnection {
        identity_policy: IdentityPolicy { auth_order: vec![], last_successful: None, record_success: false, identities_only: false },
        agent_policy: AgentPolicy { enabled: false, offer_mode: AgentOfferMode::AfterProfileKeys },
        identity_refs: vec![],
        host_key_policy: policy(mode),
        trusted_host_keys: keys,
        tunnels: vec![],
        reconnect: true,
        reconnect_delay_ms: 1000,
    }
}

fn profile(id: &str, keys: Vec<TrustedHostKey>) -> SessionProfile {
    SessionProfile { id: id.to_string(), connection: ConnectionConfig::Ssh(ssh(keys, HostKeyMode::TrustOnFirstUse)) }
}

fn keys_of(p: &SessionProfile) -> Vec<TrustedHostKey> {
    match &p.connection {
        ConnectionConfig::Ssh(s) | ConnectionConfig::Tmux(s) => s.trusted_host_keys.clone(),
        _ => vec![],
    }
}

fn observation(fingerprint: Result<&str, &str>) -> HostKeyObservation {
    HostKeyObservation {
        host: "10.0.0.1".to_string(),
        port: 22,
        algorithm: "ssh-ed25519".to_string(),
        public_key_base64: "AAAA".to_string(),
        target_alias: "server".to_string(),
        fingerprint_sha256: fingerprint.map(str::to_string).map_err(str::to_string),
    }
}

#[test]
fn rejections_are_described() {
    assert_eq!(
        describe_host_key_rejection(&HostKeyEvaluation::Trusted { matched_key_id: "k1".to_string(), fingerprint_sha256: "f".to_string() }),
        "SSH host key 已受信任"
    );
    assert_eq!(
        describe_host_key_rejection(&HostKeyEvaluation::Unknown {
            alias: "srv".to_string(),
            port: 2222,
            algorithm: "ssh-rsa".to_string(),
            fingerprint_sha256: "SHA256:x".to_string(),
        }),
        "SSH host key 未受信任: alias=srv:2222, algorithm=ssh-rsa, fingerprint=SHA256:x"
    );
    assert_eq!(
        describe_host_key_rejection(&HostKeyEvaluation::Mismatch {
            alias: "srv".to_string(),
            port: 22,
            algorithm: "ssh-ed25519".to_string(),
            expected: vec![key("a", None, "F1"), key("b", None, "F2")],
            observed_fingerprint_sha256: "F3".to_string(),
        }),
        "SSH host key 已变化，已阻断: alias=srv:22, algorithm=ssh-ed25519, observed=F3, expected=[F1, F2]"
    );
}

#[test]
fn scan_snapshots_leave_out_mirrored_keys() {
    let snapshot = host_key_scan_connection_snapshot(profile("p", vec![key("a", Some("p"), "F")])).unwrap();
    match snapshot {
        ConnectionConfig::Ssh(s) => assert!(s.trusted_host_keys.is_empty()),
        _ => panic!("expected an SSH connection"),
    }
    let shell = SessionProfile { id: "sh".to_string(), connection: ConnectionConfig::Shell };
    assert_eq!(
        host_key_scan_connection_snapshot(shell).unwrap_err(),
        "profile is not SSH-backed: sh"
    );
}

#[test]
fn mirroring_copies_keys_into_their_profiles() {
    let mut store = SessionStore {
        profiles: vec![profile("p", vec![key("a", Some("p"), "OLD")]), profile("q", vec![])],
        host_keys: vec![],
    };
    mirror_persistent_host_keys(&mut store, &[key("a", Some("p"), "NEW"), key("b", Some("q"), "B")]).unwrap();
    let p_keys = keys_of(&store.profiles[0]);
    assert_eq!(p_keys.len(), 1);
    assert_eq!(p_keys[0].fingerprint_sha256, "NEW");
    assert_eq!(keys_of(&store.profiles[1])[0].id, "b");

    let err = mirror_persistent_host_keys(&mut store, &[key("c", None, "C")]).unwrap_err();
    assert_eq!(err, "host key c has no source Profile");
    let err = mirror_persistent_host_keys(&mut store, &[key("c", Some("zz"), "C")]).unwrap_err();
    assert_eq!(err, "unknown session: zz");
    store.profiles.push(SessionProfile { id: "sh".to_string(), connection: ConnectionConfig::Shell });
    let err = mirror_persistent_host_keys(&mut store, &[key("d", Some("q"), "D"), key("c", Some("sh"), "C")])
        .unwrap_err();
    assert_eq!(err, "profile is not SSH-backed: sh");
    assert_eq!(keys_of(&store.profiles[1]).len(), 2);
}

fn update_request(alias: &str, host: &str, port: u16) -> HostKeyUpdateRequest {
    HostKeyUpdateRequest {
        key_id: "a".to_string(),
        expected_key: key("a", Some("p"), "F"),
        alias: alias.to_string(),
        host: host.to_string(),
        port,
        profile_id: Some("  p ".to_string()),
        scope: HostKeyScope::Profile,
        label: Some("   ".to_string()),
    }
}

#[test]
fn host_key_updates_are_checked_and_applied_everywhere() {
    let mut store = SessionStore {
        profiles: vec![profile("p", vec![key("a", Some("p"), "F")])],
        host_keys: vec![key("a", Some("p"), "F")],
    };
    assert_eq!(
        host_key_update_incoming(&store, &update_request(" ", "h", 22)).unwrap_err(),
        "host key alias 不能为空"
    );
    assert_eq!(
        host_key_update_incoming(&store, &update_request("x", "", 22)).unwrap_err(),
        "host key host 不能为空"
    );
    assert_eq!(
        host_key_update_incoming(&store, &update_request("x", "h", 0)).unwrap_err(),
        "host key 端口必须在 1-65535 之间"
    );
    let mut wrong = update_request("x", "h", 22);
    wrong.key_id = "zz".to_string();
    assert_eq!(
        host_key_update_incoming(&store, &wrong).unwrap_err(),
        "expectedKey 与更新目标不是同一个 host key"
    );

    let request = update_request(" renamed ", " 10.0.0.9 ", 2022);
    let (current, incoming) = host_key_update_incoming(&store, &request).unwrap();
    assert_eq!(current.id, "a");
    assert_eq!(incoming.alias, "renamed");
    assert_eq!(incoming.host, "10.0.0.9");
    assert_eq!(incoming.profile_id.as_deref(), Some("p"));
    assert_eq!(incoming.label, None);

    let mut orphan = incoming.clone();
    orphan.profile_id = None;
    assert_eq!(
        update_host_key_in_store(&mut store, &request, &orphan).unwrap_err(),
        "Profile scope host key 必须选择 Profile"
    );
    let keys = update_host_key_in_store(&mut store, &request, &incoming).unwrap();
    assert_eq!(keys[0].alias, "renamed");
    assert_eq!(keys[0].port, 2022);
    assert_eq!(keys[0].fingerprint_sha256, "F");
    assert_eq!(keys_of(&store.profiles[0])[0].host, "10.0.0.9");
}

#[test]
fn deleting_host_keys_removes_profile_copies() {
    let mut store = SessionStore {
        profiles: vec![profile("p", vec![key("a", Some("p"), "F"), key("b", Some("p"), "G")])],
        host_keys: vec![key("a", Some("p"), "F"), key("b", Some("p"), "G")],
    };
    let remaining = delete_host_keys_from_store(&mut store, &["a".to_string()]);
    assert_eq!(remaining.len(), 1);
    assert_eq!(remaining[0].id, "b");
    let kept = keys_of(&store.profiles[0]);
    assert_eq!(kept.len(), 1);
    assert_eq!(kept[0].id, "b");
}

#[test]
fn observed_keys_mark_trusted_keys_as_seen() {
    let mut store = SessionStore {
        profiles: vec![profile("p", vec![key("a", Some("p"), "F"), key("x", Some("p"), "OTHER")])],
        host_keys: vec![key("a", Some("p"), "F")],
    };
    let policy = policy(HostKeyMode::TrustOnFirstUse);
    assert!(touch_observed_host_key(&mut store, "p", &policy, &observation(Ok("F")), 999).unwrap());
    assert_eq!(store.host_keys[0].last_seen, 999);
    let copies = keys_of(&store.profiles[0]);
    assert_eq!(copies[0].last_seen, 999);
    assert_eq!(copies[1].last_seen, 200);
    assert!(!touch_observed_host_key(&mut store, "p", &policy, &observation(Ok("NOPE")), 5).unwrap());
    assert_eq!(
        touch_observed_host_key(&mut store, "p", &policy, &observation(Err("bad key")), 5).unwrap_err(),
        "bad key"
    );
}

#[test]
fn key_matching_respects_scope_and_address_checks() {
    let policy = policy(HostKeyMode::AskEveryTime);
    let k = key("a", Some("p"), "F");
    let obs = observation(Ok("F"));
    assert!(persistent_host_key_matches_observation(&k, "p", &policy, &obs, "server", "F"));
    assert!(!persistent_host_key_matches_observation(&k, "q", &policy, &obs, "server", "F"));
    let mut user = k.clone();
    user.scope = HostKeyScope::User;
    user.host = "elsewhere".to_string();
    assert!(!persistent_host_key_matches_observation(&user, "q", &policy, &obs, "server", "F"));
    let relaxed = HostKeyPolicy { check_ip: false, ..policy };
    assert!(persistent_host_key_matches_observation(&user, "q", &relaxed, &obs, "server", "F"));
    assert!(one_time_trusts_observation(&[k.clone()], "p", &policy, &obs));
    assert!(!one_time_trusts_observation(&[k.clone()], "p", &policy, &observation(Err("x"))));
    let store = SessionStore { profiles: vec![profile("p", vec![k])], host_keys: vec![] };
    assert!(profile_trusts_observation(&store, "p", &obs));
    assert!(!profile_trusts_observation(&store, "q", &obs));
}

#[test]
fn observed_key_decisions_follow_trust_and_policy() {
    let store = SessionStore { profiles: vec![profile("p", vec![])], host_keys: vec![] };
    let obs = observation(Ok("F"));
    let unknown = HostKeyEvaluation::Unknown {
        alias: "server".to_string(),
        port: 22,
        algorithm: "ssh-ed25519".to_string(),
        fingerprint_sha256: "F".to_string(),
    };
    assert_eq!(
        persist_observed_host_key(&store, "p", None, None, &[], &unknown).unwrap_err(),
        "SSH 未收到服务器 host key"
    );
    assert_eq!(
        persist_observed_host_key(&store, "zz", Some(&obs), None, &[], &unknown).unwrap_err(),
        "unknown session: zz"
    );
    assert_eq!(
        persist_observed_host_key(&store, "p", Some(&obs), Some(false), &[], &unknown).unwrap_err(),
        "SSH profile changed while establishing session: p"
    );
    match persist_observed_host_key(&store, "p", Some(&obs), Some(true), &[key("t", Some("p"), "F")], &unknown)
        .unwrap()
    {
        ObservedHostKeyAction::Accept(m) => {
            assert_eq!(m, "PortMate: SSH host key trusted for this connection only (ssh-ed25519, F)")
        }
        other => panic!("unexpected {other:?}"),
    }
    match persist_observed_host_key(&store, "p", Some(&obs), None, &[], &unknown).unwrap() {
        ObservedHostKeyAction::AppendToProfile(m) => {
            assert_eq!(m, "PortMate: SSH host key trusted for this profile (ssh-ed25519, F)")
        }
        other => panic!("unexpected {other:?}"),
    }
    let trusted = HostKeyEvaluation::Trusted { matched_key_id: "k1".to_string(), fingerprint_sha256: "F".to_string() };
    match persist_observed_host_key(&store, "p", Some(&obs), None, &[], &trusted).unwrap() {
        ObservedHostKeyAction::Touch(m) => assert_eq!(m, "PortMate: SSH host key verified (ssh-ed25519, F)"),
        other => panic!("unexpected {other:?}"),
    }
    let strict = SessionStore {
        profiles: vec![SessionProfile {
            id: "p".to_string(),
            connection: ConnectionConfig::Tmux(ssh(vec![], HostKeyMode::AskEveryTime)),
        }],
        host_keys: vec![],
    };
    assert_eq!(
        persist_observed_host_key(&strict, "p", Some(&obs), None, &[], &unknown).unwrap_err(),
        "SSH host key 未受信任: ssh-ed25519 F"
    );
    let vouched = SessionStore { profiles: vec![profile("p", vec![key("a", Some("p"), "F")])], host_keys: vec![] };
    match persist_observed_host_key(&vouched, "p", Some(&obs), None, &[], &unknown).unwrap() {
        ObservedHostKeyAction::Touch(m) => {
            assert_eq!(m, "PortMate: SSH host key verified by profile trust (ssh-ed25519, F)")
        }
        other => panic!("unexpected {other:?}"),
    }
    let mismatch = HostKeyEvaluation::Mismatch {
        alias: "server".to_string(),
        port: 22,
        algorithm: "ssh-ed25519".to_string(),
        expected: vec![key("a", None, "OLD")],
        observed_fingerprint_sha256: "F".to_string(),
    };
    assert_eq!(
        persist_observed_host_key(&store, "p", Some(&obs), None, &[], &mismatch).unwrap_err(),
        "SSH host key 已变化，已阻断: alias=server:22, algorithm=ssh-ed25519, observed=F, expected=[OLD]"
    );
}

#[test]
fn host_key_decisions_are_reconciled_with_profiles() {
    let mut store = SessionStore {
        profiles: vec![profile("p", vec![key("a", Some("p"), "F"), key("b", Some("p"), "G")])],
        host_keys: vec![key("b", Some("p"), "G")],
    };
    assert_eq!(persistent_host_key_policy(&store, "p").unwrap(), policy(HostKeyMode::TrustOnFirstUse));
    assert_eq!(persistent_host_key_policy(&store, "q").unwrap_err(), "unknown session: q");
    let previous = vec!["a".to_string(), "b".to_string()];
    let trusted = key("c", Some("p"), "H");
    let result = apply_persistent_host_key_decision(&mut store, &previous, Some(trusted)).unwrap();
    assert_eq!(result.unwrap().id, "c");
    let ids: Vec<String> = keys_of(&store.profiles[0]).into_iter().map(|k| k.id).collect();
    assert_eq!(ids, vec!["b".to_string(), "c".to_string()]);
    assert_eq!(find_key(&store.host_keys, "b"), Some(0));
    assert_eq!(find_key(&store.host_keys, "a"), None);
}

#[test]
fn one_time_keys_are_taken_and_restored() {
    let mut keys = OneTimeHostKeys::new();
    keys.remember_one_time_host_key_in("p", key("a", Some("p"), "F"));
    keys.remember_one_time_host_key_in("p", key("b", Some("p"), "G"));
    keys.remember_one_time_host_key_in("q", key("c", Some("q"), "H"));
    assert_eq!(keys.one_time_host_keys_snapshot_from("p").len(), 2);
    let taken = keys.take_one_time_host_keys_from("p");
    assert_eq!(taken.len(), 2);
    assert!(keys.one_time_host_keys_snapshot_from("p").is_empty());
    assert_eq!(keys.one_time_host_keys_snapshot_from("q").len(), 1);
    keys.remember_one_time_host_key_in("p", key("b", Some("p"), "NEWER"));
    keys.restore_one_time_host_keys_in("p", taken);
    let restored = keys.one_time_host_keys_snapshot_from("p");
    let ids: Vec<&str> = restored.iter().map(|k| k.id.as_str()).collect();
    assert_eq!(ids, vec!["b", "a"]);
    assert_eq!(restored[0].fingerprint_sha256, "NEWER");
}

#[test]
fn handshakes_accept_or_refuse_server_keys() {
    let ask = policy(HostKeyMode::AskEveryTime);
    let tofu = policy(HostKeyMode::TrustOnFirstUse);
    let once = vec!["k1".to_string()];
    assert!(trusted_host_key_allowed(&tofu, "k9", &[]));
    assert!(trusted_host_key_allowed(&ask, "k1", &once));
    assert!(!trusted_host_key_allowed(&ask, "k2", &once));
    let trusted = Ok(HostKeyEvaluation::Trusted {
        matched_key_id: "k2".to_string(),
        fingerprint_sha256: "SHA256:t".to_string(),
    });
    assert_eq!(verify_ssh_host_key_observation(&tofu, &trusted, &once), Ok(()));
    assert_eq!(
        verify_ssh_host_key_observation(&ask, &trusted, &once),
        Err("SSH host key requires confirmation for this connection: SHA256:t".to_string())
    );
    let unknown = Ok(HostKeyEvaluation::Unknown {
        alias: "srv".to_string(),
        port: 22,
        algorithm: "ssh-ed25519".to_string(),
        fingerprint_sha256: "SHA256:u".to_string(),
    });
    assert_eq!(verify_ssh_host_key_observation(&tofu, &unknown, &[]), Ok(()));
    assert_eq!(
        verify_ssh_host_key_observation(&ask, &unknown, &[]),
        Err("SSH host key 未受信任: alias=srv:22, algorithm=ssh-ed25519, fingerprint=SHA256:u".to_string())
    );
    let mismatch = Ok(HostKeyEvaluation::Mismatch {
        alias: "srv".to_string(),
        port: 22,
        algorithm: "ssh-ed25519".to_string(),
        expected: vec![key("a", None, "F1")],
        observed_fingerprint_sha256: "F3".to_string(),
    });
    assert_eq!(
        verify_ssh_host_key_observation(&tofu, &mismatch, &[]),
        Err("SSH host key 已变化，已阻断: alias=srv:22, algorithm=ssh-ed25519, observed=F3, expected=[F1]".to_string())
    );
    assert_eq!(
        verify_ssh_host_key_observation(&tofu, &Err("bad key".to_string()), &[]),
        Err("host key fingerprint 计算失败: bad key".to_string())
    );
}

#[test]
fn trust_once_keys_are_scoped_to_the_profile() {
    let k = temporary_trusted_host_key_for_policy("p", &observation(Ok("SHA256:o")), "id-1", 500).unwrap();
    assert_eq!(k.id, "id-1");
    assert_eq!(k.profile_id.as_deref(), Some("p"));
    assert_eq!(k.alias, "server");
    assert_eq!(k.fingerprint_sha256, "SHA256:o");
    assert_eq!(k.scope, HostKeyScope::Profile);
    assert_eq!(k.label.as_deref(), Some("trust once"));
    assert_eq!((k.first_seen, k.last_seen), (500, 500));
    assert_eq!(
        temporary_trusted_host_key_for_policy("p", &observation(Err("no key")), "id-1", 500).unwrap_err(),
        "no key"
    );
    let store = SessionStore { profiles: vec![profile("p", vec![])], host_keys: vec![] };
    assert!(temporary_trusted_host_key(&store, "p", &observation(Ok("F")), "id-2", 1).is_ok());
    assert_eq!(
        temporary_trusted_host_key(&store, "zz", &observation(Ok("F")), "id-2", 1).unwrap_err(),
        "unknown session: zz"
    );
}

#[test]
fn loaded_stores_drop_keys_of_missing_profiles() {
    let mut user_key = key("u", Some("gone"), "U");
    user_key.scope = HostKeyScope::User;
    let mut store = SessionStore {
        profiles: vec![profile("p", vec![])],
        host_keys: vec![key("a", Some("p"), "A"), key("b", Some("gone"), "B"), user_key, key("c", None, "C")],
    };
    prune_orphaned_host_keys(&mut store);
    let ids: Vec<_> = store.host_keys.iter().map(|k| (k.id.as_str(), k.profile_id.as_deref())).collect();
    assert_eq!(ids, vec![("a", Some("p")), ("u", None)]);
    assert_eq!(store.profiles.len(), 1);
}
