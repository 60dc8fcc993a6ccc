//! The terminal reader of an SSH session: what each channel message asks
//! of it, when buffered stream output is due to be saved, and the event
//! recorded when the session ends.
use vstd::prelude::*;
use crate::channel::{SshBackendMessage, disconnect_reason, ssh_channel_disconnect_reason};
use crate::text::{decimal, opt_view, push_str, u64_to_decimal};

verus! {

/// What the reader does with one channel message.
#[derive(Debug, PartialEq, Eq)]
pub enum ReaderAction {
    /// Pass the bytes to the terminal and record them, on the error stream
    /// when `stderr`.
    Output { bytes: Vec<u8>, stderr: bool },
    /// Record a system event with this text.
    Event(String),
    /// The channel ended: stop reading.
    Stop,
    /// Nothing to do.
    Nothing,
}

/// What the reader remembers between messages.
#[derive(Debug)]
pub struct SshReaderState {
    /// The last reason a message gave for the channel ending.
    pub disconnect_reason: Option<String>,
    /// Stream output was recorded since the store was last saved.
    pub has_unpersisted_stream: bool,
}

/// The action a message calls for.
pub open spec fn reader_action(m: SshBackendMessage, a: ReaderAction) -> bool {
    match m {
        SshBackendMessage::Data(bytes) => a matches ReaderAction::Output { bytes: b, stderr } && b@
            == bytes@ && !stderr,
        SshBackendMessage::ExtendedData { data, ext } => a matches ReaderAction::Output {
            bytes: b,
            stderr,
        } && b@ == data@ && stderr == (ext == 1),
        SshBackendMessage::ExitStatus(code) => a matches ReaderAction::Event(t) && t@
            == "PortMate: SSH remote process exited with status "@ + decimal(code as nat),
        SshBackendMessage::ExitSignal { signal_name, error_message } => a matches ReaderAction::Event(
            t,
        ) && t@ == "PortMate: SSH remote process exited by signal "@ + signal_name@ + " "@
            + error_message@,
        SshBackendMessage::Error(_) => a is Stop,
        SshBackendMessage::Eof => a is Stop,
        SshBackendMessage::Close => a is Stop,
        _ => a is Nothing,
    }
}

impl SshReaderState {
    /// A reader that has seen nothing yet.
    pub fn new() -> (r: Self)
        ensures
            r.disconnect_reason is None,
            !r.has_unpersisted_stream,
    {
        SshReaderState { disconnect_reason: None, has_unpersisted_stream: false }
    }

    /// Takes in one channel message: remembers the reason it gives for the
    /// channel ending and whether it carried stream output, and tells what
    /// to do with it.
    pub fn handle_message(&mut self, message: SshBackendMessage) -> (a: ReaderAction)
        ensures
            reader_action(message, a),
            opt_view(final(self).disconnect_reason) == match disconnect_reason(message) {
                Some(s) => Some(s),
                None => opt_view(old(self).disconnect_reason),
            },
            final(self).has_unpersisted_stream == (old(self).has_unpersisted_stream || message is Data
                || message is ExtendedData),
    {
        if let Some(reason) = ssh_channel_disconnect_reason(&message) {
            self.disconnect_reason = Some(reason);
        }
        match message {
            SshBackendMessage::Data(bytes) => {
                self.has_unpersisted_stream = true;
                ReaderAction::Output { bytes, stderr: false }
            },
            SshBackendMessage::ExtendedData { data, ext } => {
                self.has_unpersisted_stream = true;
                ReaderAction::Output { bytes: data, stderr: ext == 1 }
            },
            SshBackendMessage::ExitStatus(code) => {
                let mut s = String::from_str("PortMate: SSH remote process exited with status ");
                let d = u64_to_decimal(code as u64);
                push_str(&mut s, d.as_str());
                ReaderAction::Event(s)
            },
            SshBackendMessage::ExitSignal { signal_name, error_message } => {
                let mut s = String::from_str("PortMate: SSH remote process exited by signal ");
                push_str(&mut s, signal_name.as_str());
                push_str(&mut s, " ");
                push_str(&mut s, error_message.as_str());
                ReaderAction::Event(s)
            },
            SshBackendMessage::Error(_) => ReaderAction::Stop,
            SshBackendMessage::Eof => ReaderAction::Stop,
            SshBackendMessage::Close => ReaderAction::Stop,
            _ => ReaderAction::Nothing,
        }
    }

    /// Whether to save the store now: stream output is waiting and at least
    /// `interval_nanos` passed since the last save. Saving clears the mark.
    pub fn persist_due(&mut self, since_last_persist_nanos: u128, interval_nanos: u128) -> (r: bool)
        ensures
            r == (old(self).has_unpersisted_stream && since_last_persist_nanos >= interval_nanos),
            final(self).has_unpersisted_stream == (old(self).has_unpersisted_stream && !r),
            final(self).disconnect_reason == old(self).disconnect_reason,
    {
        if self.has_unpersisted_stream && since_last_persist_nanos >= interval_nanos {
            self.has_unpersisted_stream = false;
            true
        } else {
            false
        }
    }

    /// The reason the session ended: the last one a message gave, else that
    /// the channel closed.
    pub fn final_disconnect_reason(&self) -> (r: String)
        ensures
            r@ == match opt_view(self.disconnect_reason) {
                Some(s) => s,
                None => "SSH channel closed"@,
            },
    {
        match &self.disconnect_reason {
            Some(s) => s.clone(),
            None => String::from_str("SSH channel closed"),
        }
    }
}

/// The event recorded when a session's channel ends: the reason, how many
/// tunnel runtimes stopped with it and, when it reconnects, after how long.
pub open spec fn disconnect_event(reason: Seq<char>, stopped: nat, reconnect_delay_ms: Option<u64>) -> Seq<
    char,
> {
    "PortMate: "@ + reason + "; stopped "@ + decimal(stopped) + " tunnel runtime(s)"@
        + match reconnect_delay_ms {
        Some(ms) => "; reconnecting in "@ + decimal(ms as nat) + "ms"@,
        None => seq![],
    }
}

/// The text of the event recorded when a session's channel ends.
pub fn ssh_disconnect_event(reason: &str, stopped_tunnels: u64, reconnect_delay_ms: Option<u64>) -> (r: String)
    ensures
        r@ == disconnect_event(reason@, stopped_tunnels as nat, reconnect_delay_ms),
{
    let mut s = String::from_str("PortMate: ");
    push_str(&mut s, reason);
    push_str(&mut s, "; stopped ");
    let n = u64_to_decimal(stopped_tunnels);
    push_str(&mut s, n.as_str());
    push_str(&mut s, " tunnel runtime(s)");
    match reconnect_delay_ms {
        Some(ms) => {
            push_str(&mut s, "; reconnecting in ");
            let d = u64_to_decimal(ms);
            push_str(&mut s, d.as_str());
            push_str(&mut s, "ms");
        },
        None => {
            assert(s@ =~= s@ + seq![]);
        },
    }
    s
}

} // verus!
