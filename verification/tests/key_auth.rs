use portmate_ssh::identity::{IdentityRef, IdentitySource};
use portmate_ssh::key_auth::{
    identity_private_key_source, keyboard_interactive_answers, keyboard_interactive_step,
    libssh_keyboard_interactive_outcome, libssh_keyboard_interactive_round,
    private_key_load_error, KeyboardInteractiveReply, KeyboardInteractiveStep, PrivateKeySource,
    SshAuthenticationError,
};
use portmate_ssh::libssh_auth::LibsshAuthStatus;

fn identity(source: IdentitySource, path: Option<&str>, secret: Option<&str>) -> IdentityRef {
    IdentityRef {
        id: "i".to_string(),
        label: "key".to_string(),
        source,
        fingerprint_sha256: None,
        path: path.map(str::to_string),
        secret_ref: secret.map(str::to_string),
    }
}

#[test]
fn hidden_prompts_get_the_password() {
    assert_eq!(
        keyboard_interactive_answers(&[true, false], "pw"),
        vec![String::new(), "pw".to_string()]
    );
    assert_eq!(keyboard_interactive_answers(&[], "pw"), Vec::<String>::new());
}

#[test]
fn keyboard_interactive_rounds_are_bounded() {
    assert_eq!(
        keyboard_interactive_step(&KeyboardInteractiveReply::Success, 0, "pw"),
        KeyboardInteractiveStep::Finished(true)
    );
    assert_eq!(
        keyboard_interactive_step(&KeyboardInteractiveReply::Failure, 3, "pw"),
        KeyboardInteractiveStep::Finished(false)
    );
    assert_eq!(
        keyboard_interactive_step(&KeyboardInteractiveReply::InfoRequest(vec![false]), 7, "pw"),
        KeyboardInteractiveStep::Respond(vec!["pw".to_string()])
    );
    assert_eq!(
        keyboard_interactive_step(&KeyboardInteractiveReply::Success, 8, "pw"),
        KeyboardInteractiveStep::Abort("SSH keyboard-interactive 认证轮次过多，已中止".to_string())
    );
    assert_eq!(libssh_keyboard_interactive_round(7), Ok(()));
    assert_eq!(
        libssh_keyboard_interactive_round(8),
        Err("libssh keyboard-interactive authentication exceeded 8 rounds".to_string())
    );
    assert_eq!(libssh_keyboard_interactive_outcome(LibsshAuthStatus::Info), None);
    assert_eq!(
        libssh_keyboard_interactive_outcome(LibsshAuthStatus::Partial),
        Some(LibsshAuthStatus::Partial)
    );
}

#[test]
fn private_keys_are_read_from_their_source() {
    assert_eq!(
        identity_private_key_source(&identity(IdentitySource::SystemFile, Some(" ~/.ssh/id "), None)),
        Ok(Some(PrivateKeySource::SystemFile("~/.ssh/id".to_string())))
    );
    assert_eq!(
        identity_private_key_source(&identity(IdentitySource::SystemFile, Some("  "), None)),
        Ok(None)
    );
    assert_eq!(
        identity_private_key_source(&identity(IdentitySource::ProfileVault, None, Some(" vault:1 "))),
        Ok(Some(PrivateKeySource::ProfileVault("vault:1".to_string())))
    );
    assert_eq!(
        identity_private_key_source(&identity(IdentitySource::ProfileVault, None, None)),
        Err("profile-vault identity 缺少 secretRef".to_string())
    );
    assert_eq!(identity_private_key_source(&identity(IdentitySource::Agent, Some("/k"), None)), Ok(None));
    assert_eq!(
        private_key_load_error(&PrivateKeySource::SystemFile("/k".to_string()), "denied"),
        "system-file /k: denied"
    );
    assert_eq!(
        private_key_load_error(&PrivateKeySource::ProfileVault("v".to_string()), "bad passphrase"),
        "profile-vault v: bad passphrase"
    );
}

#[test]
fn authentication_errors_read_well() {
    let timed_out = SshAuthenticationError::TimedOut { timeout_ms: 15000, cleanup_warning: None };
    assert_eq!(timed_out.message(), "SSH 认证超时（15000 ms）");
    let warned = SshAuthenticationError::TimedOut {
        timeout_ms: 15000,
        cleanup_warning: Some("disconnect failed".to_string()),
    };
    assert_eq!(warned.message(), "SSH 认证超时（15000 ms）; disconnect failed");
    assert_eq!(SshAuthenticationError::Failed("denied".to_string()).message(), "denied");
    let huge = SshAuthenticationError::TimedOut {
        timeout_ms: 18_446_744_073_709_551_616,
        cleanup_warning: None,
    };
    assert_eq!(huge.message(), "SSH 认证超时（18446744073709551616 ms）");
}
