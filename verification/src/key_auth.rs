//! Credential handling during SSH user authentication: the answers given to
//! keyboard-interactive prompts and the bound on their rounds, where an
//! identity's private key is read from, and the message of a failed or
//! timed-out authentication.
use vstd::prelude::*;
use crate::agent_auth::texts;
use crate::identity::{IdentityRef, IdentitySource};
use crate::libssh_auth::LibsshAuthStatus;
use crate::text::{decimal, opt_view, push_str, to_chars, trim, trim_string, u128_to_decimal};

verus! {

/// The most keyboard-interactive rounds answered before giving up.
pub const KEYBOARD_INTERACTIVE_MAX_ROUNDS: u32 = 8;

/// The answer to one prompt: nothing for an echoed prompt (a user name or
/// a question), the password for a hidden one.
pub open spec fn prompt_answer(echo: bool, password: Seq<char>) -> Seq<char> {
    if echo {
        Seq::empty()
    } else {
        password
    }
}

/// Answers the prompts of one keyboard-interactive round; `echo` tells for
/// each prompt whether it is echoed.
pub fn keyboard_interactive_answers(echo: &[bool], password: &str) -> (r: Vec<String>)
    ensures
        r@.len() == echo@.len(),
        forall|i: int| 0 <= i < echo@.len() ==> (#[trigger] texts(r@)[i]) == prompt_answer(echo@[i], password@),
{
    let mut out: Vec<String> = Vec::new();
    let mut i: usize = 0;
    while i < echo.len()
        invariant
            i <= echo@.len(),
            out@.len() == i,
            forall|j: int| 0 <= j < i ==> (#[trigger] texts(out@)[j]) == prompt_answer(echo@[j], password@),
        decreases echo@.len() - i,
    {
        let a = if echo[i] {
            String::new()
        } else {
            String::from_str(password)
        };
        assert(a@ == prompt_answer(echo@[i as int], password@));
        let ghost before = out@;
        out.push(a);
        assert(texts(out@) =~= texts(before).push(a@));
        i = i + 1;
    }
    out
}

/// What the server answered in a keyboard-interactive exchange.
#[derive(Clone, Debug, PartialEq, Eq)]
pub enum KeyboardInteractiveReply {
    Success,
    Failure,
    /// A round of prompts; each tells whether it is echoed.
    InfoRequest(Vec<bool>),
}

/// What to do next in a keyboard-interactive exchange.
#[derive(Clone, Debug, PartialEq, Eq)]
pub enum KeyboardInteractiveStep {
    /// Authentication ended: accepted or refused.
    Finished(bool),
    /// Send these answers.
    Respond(Vec<String>),
    /// Too many rounds: give up with this error.
    Abort(String),
}

/// The next step after the server's `reply`, once `answered_rounds`
/// rounds were answered: after `KEYBOARD_INTERACTIVE_MAX_ROUNDS` the
/// exchange is abandoned whatever the reply.
pub fn keyboard_interactive_step(reply: &KeyboardInteractiveReply, answered_rounds: u32, password: &str) -> (r:
    KeyboardInteractiveStep)
    ensures
        answered_rounds >= KEYBOARD_INTERACTIVE_MAX_ROUNDS ==> (r matches KeyboardInteractiveStep::Abort(e) && e@
            == "SSH keyboard-interactive 认证轮次过多，已中止"@),
        answered_rounds < KEYBOARD_INTERACTIVE_MAX_ROUNDS ==> match *reply {
            KeyboardInteractiveReply::Success => r == KeyboardInteractiveStep::Finished(true),
            KeyboardInteractiveReply::Failure => r == KeyboardInteractiveStep::Finished(false),
            KeyboardInteractiveReply::InfoRequest(echo) => r matches KeyboardInteractiveStep::Respond(answers)
                && answers@.len() == echo@.len() && forall|i: int|
                0 <= i < echo@.len() ==> (#[trigger] texts(answers@)[i]) == prompt_answer(echo@[i], password@),
        },
{
    if answered_rounds >= KEYBOARD_INTERACTIVE_MAX_ROUNDS {
        return KeyboardInteractiveStep::Abort(String::from_str("SSH keyboard-interactive 认证轮次过多，已中止"));
    }
    match reply {
        KeyboardInteractiveReply::Success => KeyboardInteractiveStep::Finished(true),
        KeyboardInteractiveReply::Failure => KeyboardInteractiveStep::Finished(false),
        KeyboardInteractiveReply::InfoRequest(echo) => KeyboardInteractiveStep::Respond(
            keyboard_interactive_answers(echo.as_slice(), password),
        ),
    }
}

/// Before each libssh keyboard-interactive request: refused once
/// `KEYBOARD_INTERACTIVE_MAX_ROUNDS` rounds were answered.
pub fn libssh_keyboard_interactive_round(answered_rounds: u32) -> (r: Result<(), String>)
    ensures
        answered_rounds < KEYBOARD_INTERACTIVE_MAX_ROUNDS ==> r is Ok,
        answered_rounds >= KEYBOARD_INTERACTIVE_MAX_ROUNDS ==> (r matches Err(e) && e@
            == "libssh keyboard-interactive authentication exceeded 8 rounds"@),
{
    if answered_rounds >= KEYBOARD_INTERACTIVE_MAX_ROUNDS {
        Err(String::from_str("libssh keyboard-interactive authentication exceeded 8 rounds"))
    } else {
        Ok(())
    }
}

/// The status that ends a libssh keyboard-interactive exchange; none when
/// libssh asks for the prompts to be answered.
pub fn libssh_keyboard_interactive_outcome(status: LibsshAuthStatus) -> (r: Option<LibsshAuthStatus>)
    ensures
        status == LibsshAuthStatus::Info ==> r is None,
        status != LibsshAuthStatus::Info ==> r == Some(status),
{
    if status == LibsshAuthStatus::Info {
        None
    } else {
        Some(status)
    }
}

/// Where the private key of an identity is read from.
#[derive(Clone, Debug, PartialEq, Eq)]
pub enum PrivateKeySource {
    /// A key file at this path (before `~` is expanded).
    SystemFile(String),
    /// A secret of the profile vault with this reference.
    ProfileVault(String),
}

/// The trimmed value when it is not blank.
pub open spec fn nonblank(o: Option<String>) -> Option<Seq<char>> {
    match o {
        Some(s) => if trim(s@).len() > 0 {
            Some(trim(s@))
        } else {
            None
        },
        None => None,
    }
}

fn nonblank_text(o: &Option<String>) -> (r: Option<String>)
    ensures
        opt_view(r) == nonblank(*o),
{
    match o {
        Some(s) => {
            let t = trim_string(s.as_str());
            if to_chars(t.as_str()).len() > 0 {
                Some(t)
            } else {
                None
            }
        },
        None => None,
    }
}

/// Where to read an identity's private key: a system file when its path
/// is set, a vault secret (whose reference it must have); none for agent
/// and public-key-only identities or a system file without a path.
pub fn identity_private_key_source(identity: &IdentityRef) -> (r: Result<Option<PrivateKeySource>, String>)
    ensures
        match identity.source {
            IdentitySource::SystemFile => match nonblank(identity.path) {
                Some(p) => r matches Ok(Some(PrivateKeySource::SystemFile(q))) && q@ == p,
                None => r matches Ok(None),
            },
            IdentitySource::ProfileVault => match nonblank(identity.secret_ref) {
                Some(s) => r matches Ok(Some(PrivateKeySource::ProfileVault(q))) && q@ == s,
                None => r matches Err(e) && e@ == "profile-vault identity 缺少 secretRef"@,
            },
            _ => r matches Ok(None),
        },
{
    match identity.source {
        IdentitySource::SystemFile => match nonblank_text(&identity.path) {
            Some(p) => Ok(Some(PrivateKeySource::SystemFile(p))),
            None => Ok(None),
        },
        IdentitySource::ProfileVault => match nonblank_text(&identity.secret_ref) {
            Some(s) => Ok(Some(PrivateKeySource::ProfileVault(s))),
            None => Err(String::from_str("profile-vault identity 缺少 secretRef")),
        },
        _ => Ok(None),
    }
}

/// The error of a private key that could not be read or decoded, naming
/// where it came from.
pub fn private_key_load_error(source: &PrivateKeySource, error: &str) -> (r: String)
    ensures
        match *source {
            PrivateKeySource::SystemFile(p) => r@ == "system-file "@ + p@ + ": "@ + error@,
            PrivateKeySource::ProfileVault(s) => r@ == "profile-vault "@ + s@ + ": "@ + error@,
        },
{
    match source {
        PrivateKeySource::SystemFile(p) => {
            let mut r = String::from_str("system-file ");
            push_str(&mut r, p.as_str());
            push_str(&mut r, ": ");
            push_str(&mut r, error);
            r
        },
        PrivateKeySource::ProfileVault(s) => {
            let mut r = String::from_str("profile-vault ");
            push_str(&mut r, s.as_str());
            push_str(&mut r, ": ");
            push_str(&mut r, error);
            r
        },
    }
}

/// Why SSH user authentication did not succeed.
#[derive(Clone, Debug, PartialEq, Eq)]
pub enum SshAuthenticationError {
    /// It took longer than the timeout; closing the session may have left
    /// a warning.
    TimedOut { timeout_ms: u128, cleanup_warning: Option<String> },
    Failed(String),
}

impl SshAuthenticationError {
    pub open spec fn message_view(&self) -> Seq<char> {
        match self {
            SshAuthenticationError::TimedOut { timeout_ms, cleanup_warning } => "SSH 认证超时（"@ + decimal(
                *timeout_ms as nat,
            ) + " ms）"@ + match cleanup_warning {
                Some(w) => "; "@ + w@,
                None => Seq::empty(),
            },
            SshAuthenticationError::Failed(e) => e@,
        }
    }

    /// The error as shown to the user.
    pub fn message(&self) -> (r: String)
        ensures
            r@ == self.message_view(),
    {
        match self {
            SshAuthenticationError::TimedOut { timeout_ms, cleanup_warning } => {
                let mut r = String::from_str("SSH 认证超时（");
                let t = u128_to_decimal(*timeout_ms);
                push_str(&mut r, t.as_str());
                push_str(&mut r, " ms）");
                match cleanup_warning {
                    Some(w) => {
                        push_str(&mut r, "; ");
                        push_str(&mut r, w.as_str());
                    },
                    None => {
                        assert(r@ + Seq::<char>::empty() =~= r@);
                    },
                }
                r
            },
            SshAuthenticationError::Failed(e) => e.clone(),
        }
    }
}

} // verus!
