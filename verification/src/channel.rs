//! Messages of an SSH channel, and the bookkeeping of a remote command run
//! over an exec channel: when it has finished, how much output it may
//! produce, and why a channel ended.
use vstd::prelude::*;
use crate::text::{decimal, push_str, trim, trim_string, u64_to_decimal};

verus! {

/// A message received on an SSH channel, independent of the SSH backend.
#[derive(Clone, Debug, PartialEq, Eq)]
pub enum SshBackendMessage {
    Data(Vec<u8>),
    ExtendedData { data: Vec<u8>, ext: u32 },
    ExitStatus(u32),
    ExitSignal { signal_name: String, error_message: String },
    Failure,
    Error(String),
    Eof,
    Close,
    Other,
}

/// How long an exec channel waits for an exit status after end of file,
/// in nanoseconds.
pub const SSH_EXEC_STATUS_GRACE_NANOS: u128 = 1_000_000_000;
pub const MAX_SSH_EXEC_STDOUT_BYTES: usize = 4194304;
pub const MAX_SSH_EXEC_STDERR_BYTES: usize = 65536;

/// The disconnect reason that a channel message carries, if any.
pub open spec fn disconnect_reason(m: SshBackendMessage) -> Option<Seq<char>> {
    match m {
        SshBackendMessage::ExitStatus(code) => Some(
            "SSH remote process exited with status "@ + decimal(code as nat),
        ),
        SshBackendMessage::ExitSignal { signal_name, error_message } => Some(
            "SSH remote process exited by signal "@ + signal_name@ + if trim(error_message@).len()
                > 0 {
                ": "@ + trim(error_message@)
            } else {
                seq![]
            },
        ),
        SshBackendMessage::Error(e) => Some("SSH channel read failed: "@ + e@),
        _ => None,
    }
}

/// Why the channel ended, for messages that end it with a reason.
pub fn ssh_channel_disconnect_reason(message: &SshBackendMessage) -> (r: Option<String>)
    ensures
        match disconnect_reason(*message) {
            Some(s) => r matches Some(t) && t@ == s,
            None => r is None,
        },
{
    match message {
        SshBackendMessage::ExitStatus(code) => {
            let mut s = String::from_str("SSH remote process exited with status ");
            let d = u64_to_decimal(*code as u64);
            push_str(&mut s, d.as_str());
            Some(s)
        },
        SshBackendMessage::ExitSignal { signal_name, error_message } => {
            let detail = trim_string(error_message.as_str());
            let mut s = String::from_str("SSH remote process exited by signal ");
            push_str(&mut s, signal_name.as_str());
            if detail.unicode_len() > 0 {
                push_str(&mut s, ": ");
                push_str(&mut s, detail.as_str());
            }
            proof {
                if trim(error_message@).len() == 0 {
                    assert(s@ =~= "SSH remote process exited by signal "@ + signal_name@ + seq![]);
                }
            }
            Some(s)
        },
        SshBackendMessage::Error(error) => {
            let mut s = String::from_str("SSH channel read failed: ");
            push_str(&mut s, error.as_str());
            Some(s)
        },
        _ => None,
    }
}

/// The exec channel state after a message: exit status and end of file
/// recorded, and whether the command is complete.
pub open spec fn exec_step(
    m: SshBackendMessage,
    exit_status: Option<u32>,
    eof_at: Option<u128>,
    now: u128,
) -> (Option<u32>, Option<u128>, bool) {
    match m {
        SshBackendMessage::ExitStatus(code) => (Some(code), eof_at, eof_at is Some),
        SshBackendMessage::Eof => (
            exit_status,
            if eof_at is Some {
                eof_at
            } else {
                Some(now)
            },
            exit_status is Some,
        ),
        SshBackendMessage::Close => (exit_status, eof_at, true),
        _ => (exit_status, eof_at, false),
    }
}

/// Records an exit status or end of file (at clock reading `now`) and tells
/// whether the command is complete: both have arrived, or the channel closed.
pub fn ssh_exec_message_completes(
    message: &SshBackendMessage,
    exit_status: &mut Option<u32>,
    eof_received_at: &mut Option<u128>,
    now: u128,
) -> (done: bool)
    ensures
        (*final(exit_status), *final(eof_received_at), done) == exec_step(
            *message,
            *old(exit_status),
            *old(eof_received_at),
            now,
        ),
{
    match message {
        SshBackendMessage::ExitStatus(code) => {
            *exit_status = Some(*code);
            eof_received_at.is_some()
        },
        SshBackendMessage::Eof => {
            if eof_received_at.is_none() {
                *eof_received_at = Some(now);
            }
            exit_status.is_some()
        },
        SshBackendMessage::Close => true,
        _ => false,
    }
}

/// After end of file, the wait for an exit status has run out.
pub fn ssh_exec_status_grace_expired(eof_received_at: Option<u128>, now: u128) -> (r: bool)
    ensures
        r == (eof_received_at matches Some(t) && now >= t && now - t >= SSH_EXEC_STATUS_GRACE_NANOS),
{
    match eof_received_at {
        Some(t) => now >= t && now - t >= SSH_EXEC_STATUS_GRACE_NANOS,
        None => false,
    }
}

/// Why `extra` more bytes of the `stream` output cannot join the `len`
/// already held under a limit of `max` bytes.
pub open spec fn append_error_text(len: int, extra: int, max: usize, stream: Seq<char>) -> Seq<char> {
    if len + extra > usize::MAX {
        "SSH exec "@ + stream + " 长度溢出"@
    } else {
        "SSH exec "@ + stream + " 超过 "@ + decimal(max as nat) + " 字节上限"@
    }
}

/// Appends command output to a buffer unless it would exceed `max_bytes`.
pub fn append_bounded_ssh_exec_data(
    buffer: &mut Vec<u8>,
    data: &[u8],
    max_bytes: usize,
    stream: &str,
) -> (r: Result<(), String>)
    ensures
        r is Ok <==> old(buffer)@.len() + data@.len() <= max_bytes,
        r is Ok ==> final(buffer)@ == old(buffer)@ + data@,
        r is Err ==> final(buffer)@ == old(buffer)@,
        r matches Err(e) ==> e@ == append_error_text(
            old(buffer)@.len() as int,
            data@.len() as int,
            max_bytes,
            stream@,
        ),
{
    if data.len() > usize::MAX - buffer.len() {
        let mut e = String::from_str("SSH exec ");
        push_str(&mut e, stream);
        push_str(&mut e, " 长度溢出");
        return Err(e);
    }
    let next_len = buffer.len() + data.len();
    if next_len > max_bytes {
        let mut e = String::from_str("SSH exec ");
        push_str(&mut e, stream);
        push_str(&mut e, " 超过 ");
        let d = u64_to_decimal(max_bytes as u64);
        push_str(&mut e, d.as_str());
        push_str(&mut e, " 字节上限");
        return Err(e);
    }
    let ghost start = buffer@;
    let mut i: usize = 0;
    while i < data.len()
        invariant
            i <= data@.len(),
            buffer@ == start + data@.subrange(0, i as int),
        decreases data@.len() - i,
    {
        buffer.push(data[i]);
        i = i + 1;
        assert(buffer@ =~= start + data@.subrange(0, i as int));
    }
    assert(data@.subrange(0, data@.len() as int) =~= data@);
    Ok(())
}

/// What `String::from_utf8_lossy` makes of `bytes`: the text they encode,
/// with each ill-formed sequence replaced by U+FFFD.
pub uninterp spec fn utf8_lossy_text(bytes: Seq<u8>) -> Seq<char>;

/// Decodes `bytes` with `String::from_utf8_lossy`; nothing is claimed of the
/// decoding beyond its name, `utf8_lossy_text`, which depends on the bytes
/// alone.
#[verifier::external_body]
fn utf8_lossy(bytes: &[u8]) -> (r: String)
    ensures
        r@ == utf8_lossy_text(bytes@),
{
    String::from_utf8_lossy(bytes).into_owned()
}

/// What a remote command run over an exec channel has sent so far.
pub struct ExecCapture {
    pub output: Vec<u8>,
    pub stderr: Vec<u8>,
    pub exit_status: Option<u32>,
    /// The clock reading at which end of file arrived.
    pub eof_received_at: Option<u128>,
}

/// What to do after a message of the exec channel.
#[derive(Clone, Debug, PartialEq, Eq)]
pub enum ExecCaptureStep {
    /// Wait for the next message.
    Continue,
    /// The command is complete.
    Finished,
    /// The capture failed with this error.
    Failed(String),
}

/// `data` joins the buffer `before`, giving `after`, within `max` bytes;
/// past the limit the buffer stays and the step fails.
pub open spec fn absorbed(
    before: Seq<u8>,
    after: Seq<u8>,
    data: Seq<u8>,
    max: usize,
    stream: Seq<char>,
    r: ExecCaptureStep,
) -> bool {
    if before.len() + data.len() <= max {
        r == ExecCaptureStep::Continue && after == before + data
    } else {
        r matches ExecCaptureStep::Failed(e) && e@ == append_error_text(
            before.len() as int,
            data.len() as int,
            max,
            stream,
        ) && after == before
    }
}

/// The result of a finished capture, given the decoded error output and
/// standard output.
pub open spec fn capture_outcome(status: Option<u32>, stderr_text: Seq<char>, output_text: Seq<char>) -> Result<
    Seq<char>,
    Seq<char>,
> {
    match status {
        Some(code) => if code != 0 {
            Err("SSH exec 返回非零状态 "@ + decimal(code as nat) + ": "@ + stderr_text)
        } else {
            Ok(output_text)
        },
        None => Ok(output_text),
    }
}

/// The result of a finished capture: an error that quotes the error output
/// for a non-zero exit status, else the standard output.
pub fn exec_capture_outcome(exit_status: Option<u32>, stderr_text: String, output_text: String) -> (r: Result<
    String,
    String,
>)
    ensures
        match capture_outcome(exit_status, stderr_text@, output_text@) {
            Ok(o) => r matches Ok(t) && t@ == o,
            Err(e) => r matches Err(t) && t@ == e,
        },
{
    match exit_status {
        Some(code) => if code != 0 {
            let mut e = String::from_str("SSH exec 返回非零状态 ");
            let d = u64_to_decimal(code as u64);
            push_str(&mut e, d.as_str());
            push_str(&mut e, ": ");
            push_str(&mut e, stderr_text.as_str());
            Err(e)
        } else {
            Ok(output_text)
        },
        None => Ok(output_text),
    }
}

impl ExecCapture {
    /// Nothing received yet.
    pub fn new() -> (r: Self)
        ensures
            r.output@.len() == 0,
            r.stderr@.len() == 0,
            r.exit_status is None,
            r.eof_received_at is None,
    {
        ExecCapture { output: Vec::new(), stderr: Vec::new(), exit_status: None, eof_received_at: None }
    }

    /// Takes in a message received at clock reading `now`: an exit status,
    /// end of file or close may complete the command; data joins standard
    /// output and extended data the error output, each within its limit; a
    /// read error fails the capture.
    pub fn absorb(&mut self, message: &SshBackendMessage, now: u128) -> (r: ExecCaptureStep)
        ensures
            final(self).exit_status == exec_step(
                *message,
                old(self).exit_status,
                old(self).eof_received_at,
                now,
            ).0,
            final(self).eof_received_at == exec_step(
                *message,
                old(self).exit_status,
                old(self).eof_received_at,
                now,
            ).1,
            exec_step(*message, old(self).exit_status, old(self).eof_received_at, now).2 ==> (r
                == ExecCaptureStep::Finished && final(self).output@ == old(self).output@
                && final(self).stderr@ == old(self).stderr@),
            !exec_step(*message, old(self).exit_status, old(self).eof_received_at, now).2 ==> match *message {
                SshBackendMessage::Data(d) => absorbed(
                    old(self).output@,
                    final(self).output@,
                    d@,
                    MAX_SSH_EXEC_STDOUT_BYTES,
                    "stdout"@,
                    r,
                ) && final(self).stderr@ == old(self).stderr@,
                SshBackendMessage::ExtendedData { data, ext } => absorbed(
                    old(self).stderr@,
                    final(self).stderr@,
                    data@,
                    MAX_SSH_EXEC_STDERR_BYTES,
                    "stderr"@,
                    r,
                ) && final(self).output@ == old(self).output@,
                SshBackendMessage::Error(e) => (r matches ExecCaptureStep::Failed(t) && t@
                    == "SSH exec channel read failed: "@ + e@) && final(self).output@ == old(self).output@
                    && final(self).stderr@ == old(self).stderr@,
                _ => r == ExecCaptureStep::Continue && final(self).output@ == old(self).output@
                    && final(self).stderr@ == old(self).stderr@,
            },
    {
        if ssh_exec_message_completes(message, &mut self.exit_status, &mut self.eof_received_at, now) {
            return ExecCaptureStep::Finished;
        }
        match message {
            SshBackendMessage::Data(d) => {
                match append_bounded_ssh_exec_data(
                    &mut self.output,
                    d.as_slice(),
                    MAX_SSH_EXEC_STDOUT_BYTES,
                    "stdout",
                ) {
                    Ok(()) => ExecCaptureStep::Continue,
                    Err(e) => ExecCaptureStep::Failed(e),
                }
            },
            SshBackendMessage::ExtendedData { data, .. } => {
                match append_bounded_ssh_exec_data(
                    &mut self.stderr,
                    data.as_slice(),
                    MAX_SSH_EXEC_STDERR_BYTES,
                    "stderr",
                ) {
                    Ok(()) => ExecCaptureStep::Continue,
                    Err(e) => ExecCaptureStep::Failed(e),
                }
            },
            SshBackendMessage::Error(error) => {
                let mut e = String::from_str("SSH exec channel read failed: ");
                push_str(&mut e, error.as_str());
                ExecCaptureStep::Failed(e)
            },
            _ => ExecCaptureStep::Continue,
        }
    }

    /// The result once the channel is done: the decoded standard output, or
    /// for a non-zero exit status an error quoting the decoded error output.
    pub fn finish(&self) -> (r: Result<String, String>)
        ensures
            match capture_outcome(
                self.exit_status,
                utf8_lossy_text(self.stderr@),
                utf8_lossy_text(self.output@),
            ) {
                Ok(o) => r matches Ok(t) && t@ == o,
                Err(e) => r matches Err(t) && t@ == e,
            },
    {
        let stderr_text = utf8_lossy(self.stderr.as_slice());
        let output_text = utf8_lossy(self.output.as_slice());
        exec_capture_outcome(self.exit_status, stderr_text, output_text)
    }
}

/// Why opening the terminal channel of a session did not succeed.
#[derive(Clone, Debug, PartialEq, Eq)]
pub enum SshTerminalSetupError {
    /// It took longer than the timeout; closing the session may have left
    /// a warning.
    TimedOut { timeout_ms: u128, cleanup_warning: Option<String> },
    Failed(String),
}

impl SshTerminalSetupError {
    pub open spec fn message_view(&self) -> Seq<char> {
        match self {
            SshTerminalSetupError::TimedOut { timeout_ms, cleanup_warning } => "SSH 终端 channel setup 超时（"@
                + decimal(*timeout_ms as nat) + " ms）"@ + match cleanup_warning {
                Some(w) => "; "@ + w@,
                None => Seq::empty(),
            },
            SshTerminalSetupError::Failed(e) => e@,
        }
    }

    /// The error as shown to the user.
    pub fn message(&self) -> (r: String)
        ensures
            r@ == self.message_view(),
    {
        match self {
            SshTerminalSetupError::TimedOut { timeout_ms, cleanup_warning } => {
                let mut r = String::from_str("SSH 终端 channel setup 超时（");
                let t = crate::text::u128_to_decimal(*timeout_ms);
                push_str(&mut r, t.as_str());
                push_str(&mut r, " ms）");
                match cleanup_warning {
                    Some(w) => {
                        push_str(&mut r, "; ");
                        push_str(&mut r, w.as_str());
                    },
                    None => {
                        assert(r@ + Seq::<char>::empty() =~= r@);
                    },
                }
                r
            },
            SshTerminalSetupError::Failed(e) => e.clone(),
        }
    }
}

/// The error of a libssh terminal setup step (`action`): a step that would
/// block past the connect timeout reads as a timeout, any other failure
/// names the step and `error`.
pub fn libssh_terminal_setup_error(action: &str, would_block: bool, error: &str, connect_timeout_ms: u128) -> (r:
    String)
    ensures
        would_block ==> r@ == "libssh 终端 setup 超时（"@ + decimal(connect_timeout_ms as nat) + " ms，"@ + action@
            + "）"@,
        !would_block ==> r@ == "libssh "@ + action@ + "失败: "@ + error@,
{
    if would_block {
        let mut r = String::from_str("libssh 终端 setup 超时（");
        let t = crate::text::u128_to_decimal(connect_timeout_ms);
        push_str(&mut r, t.as_str());
        push_str(&mut r, " ms，");
        push_str(&mut r, action);
        push_str(&mut r, "）");
        r
    } else {
        let mut r = String::from_str("libssh ");
        push_str(&mut r, action);
        push_str(&mut r, "失败: ");
        push_str(&mut r, error);
        r
    }
}

} // verus!
