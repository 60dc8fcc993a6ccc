use portmate_ssh::channel::{
    exec_capture_outcome, ExecCapture, ExecCaptureStep,
    libssh_terminal_setup_error, SshTerminalSetupError, append_bounded_ssh_exec_data, ssh_channel_disconnect_reason, ssh_exec_message_completes,
    ssh_exec_status_grace_expired, SshBackendMessage, SSH_EXEC_STATUS_GRACE_NANOS,
};

#[test]
fn disconnect_reasons_name_the_cause() {
    assert_eq!(
        ssh_channel_disconnect_reason(&SshBackendMessage::ExitStatus(23)).as_deref(),
        Some("SSH remote process exited with status 23")
    );
    assert_eq!(
        ssh_channel_disconnect_reason(&SshBackendMessage::ExitSignal {
            signal_name: "TERM".to_string(),
            error_message: "  killed \n".to_string(),
        })
        .as_deref(),
        Some("SSH remote process exited by signal TERM: killed")
    );
    assert_eq!(
        ssh_channel_disconnect_reason(&SshBackendMessage::ExitSignal {
            signal_name: "HUP".to_string(),
            error_message: " ".to_string(),
        })
        .as_deref(),
        Some("SSH remote process exited by signal HUP")
    );
    assert_eq!(
        ssh_channel_disconnect_reason(&SshBackendMessage::Error("eof".to_string())).as_deref(),
        Some("SSH channel read failed: eof")
    );
    assert_eq!(ssh_channel_disconnect_reason(&SshBackendMessage::Eof), None);
    assert_eq!(ssh_channel_disconnect_reason(&SshBackendMessage::Data(b"x".to_vec())), None);
}

#[test]
fn exec_completes_after_status_and_eof_or_close() {
    let mut status = None;
    let mut eof = None;
    assert!(!ssh_exec_message_completes(&SshBackendMessage::Data(vec![1]), &mut status, &mut eof, 5));
    assert!(!ssh_exec_message_completes(&SshBackendMessage::Eof, &mut status, &mut eof, 10));
    assert_eq!(eof, Some(10));
    assert!(!ssh_exec_message_completes(&SshBackendMessage::Eof, &mut status, &mut eof, 20));
    assert_eq!(eof, Some(10));
    assert!(ssh_exec_message_completes(&SshBackendMessage::ExitStatus(0), &mut status, &mut eof, 30));
    assert_eq!(status, Some(0));
    let mut status = None;
    let mut eof = None;
    assert!(ssh_exec_message_completes(&SshBackendMessage::Close, &mut status, &mut eof, 1));
    assert!(!ssh_exec_status_grace_expired(None, 100));
    assert!(!ssh_exec_status_grace_expired(Some(10), 10 + SSH_EXEC_STATUS_GRACE_NANOS - 1));
    assert!(ssh_exec_status_grace_expired(Some(10), 10 + SSH_EXEC_STATUS_GRACE_NANOS));
}

#[test]
fn exec_output_is_bounded() {
    let mut buffer = b"ab".to_vec();
    assert_eq!(append_bounded_ssh_exec_data(&mut buffer, b"cd", 4, "stdout"), Ok(()));
    assert_eq!(buffer, b"abcd".to_vec());
    assert_eq!(
        append_bounded_ssh_exec_data(&mut buffer, b"e", 4, "stdout"),
        Err("SSH exec stdout 超过 4 字节上限".to_string())
    );
    assert_eq!(buffer, b"abcd".to_vec());
}

#[test]
fn terminal_setup_errors_read_well() {
    let timed_out = SshTerminalSetupError::TimedOut {
        timeout_ms: 8000,
        cleanup_warning: Some("close failed".to_string()),
    };
    assert_eq!(timed_out.message(), "SSH 终端 channel setup 超时（8000 ms）; close failed");
    let plain = SshTerminalSetupError::TimedOut { timeout_ms: 1, cleanup_warning: None };
    assert_eq!(plain.message(), "SSH 终端 channel setup 超时（1 ms）");
    assert_eq!(
        SshTerminalSetupError::Failed("no pty".to_string()).message(),
        "no pty"
    );
    assert_eq!(
        libssh_terminal_setup_error("请求 PTY ", true, "again", 5000),
        "libssh 终端 setup 超时（5000 ms，请求 PTY ）"
    );
    assert_eq!(
        libssh_terminal_setup_error("请求 PTY ", false, "denied", 5000),
        "libssh 请求 PTY 失败: denied"
    );
}

#[test]
fn exec_capture_collects_output_until_status_and_eof() {
    let mut capture = ExecCapture::new();
    assert_eq!(capture.absorb(&SshBackendMessage::Data(b"hello ".to_vec()), 1), ExecCaptureStep::Continue);
    assert_eq!(
        capture.absorb(&SshBackendMessage::ExtendedData { data: b"warn".to_vec(), ext: 1 }, 2),
        ExecCaptureStep::Continue
    );
    assert_eq!(capture.absorb(&SshBackendMessage::Data(b"world".to_vec()), 3), ExecCaptureStep::Continue);
    assert_eq!(capture.absorb(&SshBackendMessage::Other, 4), ExecCaptureStep::Continue);
    assert_eq!(capture.absorb(&SshBackendMessage::Eof, 5), ExecCaptureStep::Continue);
    assert_eq!(capture.eof_received_at, Some(5));
    assert_eq!(capture.absorb(&SshBackendMessage::ExitStatus(0), 6), ExecCaptureStep::Finished);
    assert_eq!(capture.output, b"hello world".to_vec());
    assert_eq!(capture.stderr, b"warn".to_vec());
    assert_eq!(capture.finish(), Ok("hello world".to_string()));
}

#[test]
fn exec_capture_reports_nonzero_status_with_stderr() {
    let mut capture = ExecCapture::new();
    assert_eq!(
        capture.absorb(&SshBackendMessage::ExtendedData { data: vec![b'b', b'a', b'd', 0xff], ext: 1 }, 1),
        ExecCaptureStep::Continue
    );
    assert_eq!(capture.absorb(&SshBackendMessage::ExitStatus(2), 2), ExecCaptureStep::Continue);
    assert_eq!(capture.absorb(&SshBackendMessage::Close, 3), ExecCaptureStep::Finished);
    assert_eq!(capture.finish(), Err("SSH exec 返回非零状态 2: bad\u{FFFD}".to_string()));
}

#[test]
fn exec_capture_fails_on_read_error_and_oversized_stderr() {
    let mut capture = ExecCapture::new();
    assert_eq!(
        capture.absorb(&SshBackendMessage::Error("reset".to_string()), 1),
        ExecCaptureStep::Failed("SSH exec channel read failed: reset".to_string())
    );
    let mut capture = ExecCapture::new();
    let big = vec![0u8; 65537];
    assert_eq!(
        capture.absorb(&SshBackendMessage::ExtendedData { data: big, ext: 1 }, 1),
        ExecCaptureStep::Failed("SSH exec stderr 超过 65536 字节上限".to_string())
    );
    assert!(capture.stderr.is_empty());
}

#[test]
fn exec_capture_outcome_keeps_output_for_success() {
    assert_eq!(exec_capture_outcome(None, "e".to_string(), "out".to_string()), Ok("out".to_string()));
    assert_eq!(exec_capture_outcome(Some(0), "e".to_string(), "out".to_string()), Ok("out".to_string()));
    assert_eq!(
        exec_capture_outcome(Some(127), "not found".to_string(), "out".to_string()),
        Err("SSH exec 返回非零状态 127: not found".to_string())
    );
}
