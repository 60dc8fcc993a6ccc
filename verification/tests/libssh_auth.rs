use portmate_ssh::identity::{AuthMethod, IdentityRef, IdentitySource};
use portmate_ssh::libssh_auth::{
    is_libssh_key_identity, libssh_auth_failure, libssh_none_accepted, AdvertisedAuthMethods,
    LibsshAuthLog, LibsshAuthStatus, LibsshAuthStep,
};

const ALL: AdvertisedAuthMethods = AdvertisedAuthMethods { gssapi_mic: true, interactive: true, password: true, public_key: true };
const NONE: AdvertisedAuthMethods = AdvertisedAuthMethods { gssapi_mic: false, interactive: false, password: false, public_key: false };

#[test]
fn methods_are_tried_only_when_advertised() {
    let mut log = LibsshAuthLog::new();
    assert_eq!(log.method_step(AuthMethod::Password, ALL, false), LibsshAuthStep::Skip);
    assert!(log.attempted.is_empty());
    assert_eq!(log.method_step(AuthMethod::Password, ALL, true), LibsshAuthStep::TryPassword);
    assert_eq!(log.method_step(AuthMethod::PublicKey, NONE, true), LibsshAuthStep::Skip);
    assert_eq!(log.method_step(AuthMethod::GssapiWithMic, ALL, true), LibsshAuthStep::TryGssapi);
    assert_eq!(log.method_step(AuthMethod::NoAuthentication, ALL, true), LibsshAuthStep::Skip);
    assert_eq!(log.method_step(AuthMethod::KeyboardInteractive, NONE, true), LibsshAuthStep::Skip);
    assert_eq!(log.attempted, vec!["password", "publickey", "gssapi-with-mic", "none", "keyboard-interactive"]);
    assert_eq!(
        log.failures,
        vec![
            "server did not advertise public-key authentication",
            "server rejected none authentication",
            "server did not advertise keyboard-interactive",
        ]
    );
}

#[test]
fn server_answers_are_logged_or_end_the_attempt() {
    let mut log = LibsshAuthLog::new();
    assert_eq!(log.method_status(AuthMethod::Password, LibsshAuthStatus::Success), Some(Ok(AuthMethod::Password)));
    assert_eq!(log.method_status(AuthMethod::Password, LibsshAuthStatus::Denied), None);
    assert_eq!(log.method_status(AuthMethod::GssapiWithMic, LibsshAuthStatus::Partial), None);
    assert_eq!(log.method_status(AuthMethod::KeyboardInteractive, LibsshAuthStatus::Partial), None);
    assert_eq!(
        log.method_status(AuthMethod::NoAuthentication, LibsshAuthStatus::Info),
        Some(Err("libssh None authentication returned an unexpected prompt state".to_string()))
    );
    assert_eq!(
        log.method_status(AuthMethod::Password, LibsshAuthStatus::Again),
        Some(Err("libssh Password authentication unexpectedly requested a retry".to_string()))
    );
    assert_eq!(
        log.failures,
        vec![
            "Password was denied",
            "GSSAPI authentication was only partially accepted",
            "KeyboardInteractive was only partially accepted",
        ]
    );
}

#[test]
fn agent_and_key_outcomes_are_logged() {
    let mut log = LibsshAuthLog::new();
    assert_eq!(log.agent_outcome("before profile keys", Err("no socket".to_string())), Ok(false));
    assert_eq!(log.agent_outcome("after profile keys", Ok(LibsshAuthStatus::Denied)), Ok(false));
    assert_eq!(log.agent_outcome("after profile keys", Ok(LibsshAuthStatus::Success)), Ok(true));
    assert_eq!(
        log.agent_outcome("after profile keys", Ok(LibsshAuthStatus::Again)),
        Err("libssh SSH agent authentication (after profile keys) returned Again".to_string())
    );
    log.key_load_failed("work", "bad passphrase");
    assert_eq!(log.public_key_status("work", LibsshAuthStatus::Denied), None);
    assert_eq!(log.public_key_status("work", LibsshAuthStatus::Success), Some(Ok(AuthMethod::PublicKey)));
    assert_eq!(
        log.public_key_status("work", LibsshAuthStatus::Info),
        Some(Err("libssh public-key authentication for work returned Info".to_string()))
    );
    log.public_keys_done(false, false, false);
    log.public_keys_done(true, false, false);
    assert_eq!(
        log.failures,
        vec![
            "SSH agent (before profile keys) failed: no socket",
            "SSH agent (after profile keys) was denied",
            "work: bad passphrase",
            "work: public key was denied",
            "profile has no usable explicit private-key identity",
        ]
    );
}

#[test]
fn failure_texts_summarize_the_attempts() {
    let mut log = LibsshAuthLog::new();
    assert_eq!(libssh_auth_failure(&[AuthMethod::Password], &log), "libssh SSH authentication failed; attempted: none");
    log.method_step(AuthMethod::GssapiWithMic, NONE, false);
    assert_eq!(libssh_auth_failure(&[AuthMethod::GssapiWithMic], &log), "SSH server did not advertise gssapi-with-mic");
    log.method_step(AuthMethod::Password, ALL, true);
    log.method_status(AuthMethod::Password, LibsshAuthStatus::Denied);
    assert_eq!(
        libssh_auth_failure(&[AuthMethod::GssapiWithMic, AuthMethod::Password], &log),
        "libssh SSH authentication failed; attempted: gssapi-with-mic, password; server did not advertise gssapi-with-mic | Password was denied"
    );
    assert_eq!(libssh_none_accepted(&[AuthMethod::Password, AuthMethod::NoAuthentication]), Ok(AuthMethod::NoAuthentication));
    assert_eq!(
        libssh_none_accepted(&[AuthMethod::Password]),
        Err("SSH server accepted none authentication, but the profile does not allow it".to_string())
    );
}

#[test]
fn only_file_and_vault_keys_are_loaded_by_libssh() {
    let mut r = IdentityRef {
        id: "i".to_string(),
        label: "l".to_string(),
        source: IdentitySource::SystemFile,
        fingerprint_sha256: None,
        path: None,
        secret_ref: None,
    };
    assert!(is_libssh_key_identity(&r));
    r.source = IdentitySource::ProfileVault;
    assert!(is_libssh_key_identity(&r));
    r.source = IdentitySource::Agent;
    assert!(!is_libssh_key_identity(&r));
    r.source = IdentitySource::PublicKeyOnly;
    assert!(!is_libssh_key_identity(&r));
}
