use portmate_ssh::channel::SshTerminalSetupError;
use portmate_ssh::establish::{
    establish_next, ssh_runtime_preflight, EstablishAction, EstablishEvent, EstablishStage,
};
use portmate_ssh::key_auth::SshAuthenticationError;

#[test]
fn preflight_checks_backend_host_and_user_in_order() {
    assert_eq!(ssh_runtime_preflight(false, "", ""), Err("profile is not SSH-backed".to_string()));
    assert_eq!(ssh_runtime_preflight(true, " ", ""), Err("SSH 主机不能为空".to_string()));
    assert_eq!(
        ssh_runtime_preflight(true, "db", "  "),
        Err("SSH 用户名不能为空；PortMate 不读取系统 ssh_config 的默认用户名".to_string())
    );
    assert_eq!(
        ssh_runtime_preflight(true, " db ", " root "),
        Ok(("db".to_string(), "root".to_string()))
    );
}

#[test]
fn a_successful_establishment_walks_every_step() {
    let (s, a) = establish_next(EstablishStage::Connecting, EstablishEvent::TargetConnected { jump_channel: false }, "db", 22);
    assert_eq!((s.clone(), a), (EstablishStage::Authenticating, EstablishAction::Authenticate));
    let (s, a) = establish_next(s, EstablishEvent::Authenticated, "db", 22);
    assert_eq!((s.clone(), a), (EstablishStage::PersistingHostKey, EstablishAction::PersistHostKey));
    let (s, a) = establish_next(s, EstablishEvent::HostKeyPersisted, "db", 22);
    assert_eq!((s.clone(), a), (EstablishStage::OpeningChannel, EstablishAction::OpenChannel));
    let (s, a) = establish_next(s, EstablishEvent::ChannelOpened, "db", 22);
    assert_eq!((s, a), (EstablishStage::Done, EstablishAction::Ready));
}

#[test]
fn a_failed_authentication_closes_and_reports() {
    let (s, a) = establish_next(
        EstablishStage::Authenticating,
        EstablishEvent::AuthenticationFailed(SshAuthenticationError::Failed("denied".to_string())),
        "db",
        2222,
    );
    assert_eq!(
        a,
        EstablishAction::Close {
            disconnect_target: true,
            reason: "PortMate target authentication failed".to_string()
        }
    );
    let (s, a) = establish_next(s, EstablishEvent::SessionsClosed { cleanup_warning: Some("w".to_string()) }, "db", 2222);
    assert_eq!(s, EstablishStage::Done);
    assert_eq!(a, EstablishAction::Fail("SSH 目标认证失败 db:2222: denied; w".to_string()));

    let (_, a) = establish_next(
        EstablishStage::Authenticating,
        EstablishEvent::AuthenticationFailed(SshAuthenticationError::TimedOut { timeout_ms: 5, cleanup_warning: None }),
        "db",
        22,
    );
    assert_eq!(
        a,
        EstablishAction::Close {
            disconnect_target: false,
            reason: "PortMate target authentication failed".to_string()
        }
    );
}

#[test]
fn host_key_and_channel_failures_close_and_report() {
    let (s, a) = establish_next(EstablishStage::PersistingHostKey, EstablishEvent::HostKeyRefused("bad key".to_string()), "db", 22);
    assert_eq!(
        a,
        EstablishAction::Close {
            disconnect_target: true,
            reason: "PortMate target host key persistence failed".to_string()
        }
    );
    let (_, a) = establish_next(s, EstablishEvent::SessionsClosed { cleanup_warning: None }, "db", 22);
    assert_eq!(a, EstablishAction::Fail("bad key".to_string()));

    let (s, a) = establish_next(
        EstablishStage::OpeningChannel,
        EstablishEvent::ChannelFailed(SshTerminalSetupError::TimedOut { timeout_ms: 10, cleanup_warning: None }),
        "db",
        22,
    );
    assert_eq!(
        a,
        EstablishAction::Close { disconnect_target: false, reason: "PortMate terminal channel setup failed".to_string() }
    );
    let (_, a) = establish_next(s, EstablishEvent::SessionsClosed { cleanup_warning: None }, "db", 22);
    assert_eq!(a, EstablishAction::Fail("SSH 终端 channel setup 超时（10 ms）".to_string()));
}

#[test]
fn unexpected_transports_and_events() {
    let (s, a) = establish_next(EstablishStage::Connecting, EstablishEvent::TargetConnected { jump_channel: true }, "db", 22);
    assert_eq!(s, EstablishStage::Done);
    assert_eq!(a, EstablishAction::Fail("SSH target returned an unexpected Jump Host transport".to_string()));
    let (s, a) = establish_next(EstablishStage::Connecting, EstablishEvent::ChannelOpened, "db", 22);
    assert_eq!((s, a), (EstablishStage::Connecting, EstablishAction::Ignored));
}
