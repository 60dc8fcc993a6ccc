use portmate_ssh::jump_chain::{
    jump_chain_step_error, ssh_target_endpoint, ssh_target_transport_check, ssh_target_step_error, target_host_key_alias,
    ConnectStepFailure,
};

#[test]
fn target_endpoints_are_checked() {
    assert_eq!(ssh_target_endpoint(" db.internal ", 22), Ok("db.internal".to_string()));
    assert_eq!(ssh_target_endpoint("  ", 22), Err("SSH 主机不能为空".to_string()));
    assert_eq!(ssh_target_endpoint("db", 0), Err("SSH 端口必须在 1-65535 之间".to_string()));
    assert_eq!(target_host_key_alias(Some("prod"), "p1"), "prod");
    assert_eq!(target_host_key_alias(Some("  "), "p1"), "p1");
    assert_eq!(target_host_key_alias(None, "p1"), "p1");
}

#[test]
fn jump_chain_steps_report_their_hop() {
    assert_eq!(
        jump_chain_step_error(0, "b1", 22, &ConnectStepFailure::ConnectTimedOut),
        "Jump Host 第 1 跳连接超时: b1:22"
    );
    assert_eq!(
        jump_chain_step_error(1, "b2", 2222, &ConnectStepFailure::DirectTcpipFailed("refused".to_string())),
        "Jump Host 第 2 跳打开 direct-tcpip 到 b2:2222 失败: refused"
    );
    assert_eq!(
        jump_chain_step_error(
            1,
            "b2",
            2222,
            &ConnectStepFailure::DirectTcpipTimedOut {
                timeout_ms: 5000,
                cleanup_warning: Some("disconnect failed".to_string())
            }
        ),
        "Jump Host 第 2 跳打开 direct-tcpip 到 b2:2222 超时（5000 ms）; disconnect failed"
    );
    assert_eq!(
        jump_chain_step_error(
            0,
            "b1",
            22,
            &ConnectStepFailure::HandshakeFailed {
                host_key_error: Some("SSH host key 已变化".to_string()),
                error: "kex".to_string()
            }
        ),
        "Jump Host 第 1 跳 SSH 握手失败 b1:22: SSH host key 已变化"
    );
    assert_eq!(
        jump_chain_step_error(
            0,
            "b1",
            22,
            &ConnectStepFailure::HandshakeFailed { host_key_error: None, error: "kex".to_string() }
        ),
        "Jump Host 第 1 跳 SSH 握手失败 b1:22: kex"
    );
    assert_eq!(
        jump_chain_step_error(2, "b3", 22, &ConnectStepFailure::AuthenticationFailed("denied".to_string())),
        "Jump Host 第 3 跳认证失败 b3:22: denied"
    );
    assert_eq!(
        jump_chain_step_error(2, "b3", 22, &ConnectStepFailure::HostKeyFailed("untrusted".to_string())),
        "Jump Host 第 3 跳 host key 处理失败 b3:22: untrusted"
    );
    assert_eq!(
        jump_chain_step_error(0, "b1", 22, &ConnectStepFailure::TransportFailed("proxy down".to_string())),
        "proxy down"
    );
}

#[test]
fn target_steps_say_whether_a_jump_was_used() {
    assert_eq!(
        ssh_target_step_error(false, "db", 22, &ConnectStepFailure::ConnectTimedOut),
        "SSH 连接超时: db:22"
    );
    assert_eq!(
        ssh_target_step_error(true, "db", 22, &ConnectStepFailure::ConnectTimedOut),
        "SSH 经 Jump Host 连接超时: db:22"
    );
    let handshake = ConnectStepFailure::HandshakeFailed { host_key_error: None, error: "kex".to_string() };
    assert_eq!(ssh_target_step_error(false, "db", 22, &handshake), "SSH 握手失败: kex");
    assert_eq!(ssh_target_step_error(true, "db", 22, &handshake), "SSH 经 Jump Host 握手失败: kex");
    let rejected = ConnectStepFailure::HandshakeFailed {
        host_key_error: Some("rejected".to_string()),
        error: "kex".to_string(),
    };
    assert_eq!(ssh_target_step_error(true, "db", 22, &rejected), "rejected");
    assert_eq!(
        ssh_target_step_error(true, "db", 22, &ConnectStepFailure::DirectTcpipFailed("refused".to_string())),
        "Jump Host 打开 direct-tcpip 到 db:22 失败: refused"
    );
}

#[test]
fn the_jump_transport_needs_a_jump() {
    assert_eq!(
        ssh_target_transport_check(0, true),
        Err("SSH Jump Host transport requires at least one jump".to_string())
    );
    assert_eq!(ssh_target_transport_check(0, false), Ok(()));
    assert_eq!(ssh_target_transport_check(2, true), Ok(()));
}
