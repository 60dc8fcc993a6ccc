//! User authentication over libssh, one decision at a time: which methods
//! of the profile's order are tried against what the server advertises,
//! how each answer of the server is taken, and the error reported when no
//! method succeeds.
//!
//! The caller talks to the server; each function here takes what it
//! learned and updates the log of attempts and failures that the final
//! error reports.
use vstd::prelude::*;
use crate::identity::{AuthMethod, IdentityRef, IdentitySource};
use crate::text::push_str;

verus! {

/// How libssh answered an authentication attempt.
#[derive(Clone, Copy, Debug, PartialEq, Eq, Structural)]
pub enum LibsshAuthStatus {
    Success,
    Denied,
    Partial,
    Info,
    Again,
}

/// The methods the server currently advertises.
#[derive(Clone, Copy, Debug, PartialEq, Eq, Structural)]
pub struct AdvertisedAuthMethods {
    pub gssapi_mic: bool,
    pub interactive: bool,
    pub password: bool,
    pub public_key: bool,
}

/// The methods attempted so far and why attempts failed, in order.
#[derive(Debug)]
pub struct LibsshAuthLog {
    pub attempted: Vec<String>,
    pub failures: Vec<String>,
}

/// What to do for a method of the order.
#[derive(Clone, Copy, Debug, PartialEq, Eq, Structural)]
pub enum LibsshAuthStep {
    /// Go on to the next method.
    Skip,
    TryGssapi,
    TryKeyboardInteractive,
    TryPassword,
    TryPublicKey,
}

/// The texts of a list of strings.
pub open spec fn texts(v: Seq<String>) -> Seq<Seq<char>> {
    v.map_values(|s: String| s@)
}

/// The texts joined by `sep`.
pub open spec fn joined(parts: Seq<Seq<char>>, sep: Seq<char>) -> Seq<char>
    decreases parts.len(),
{
    if parts.len() == 0 {
        seq![]
    } else if parts.len() == 1 {
        parts[0]
    } else {
        joined(parts.drop_last(), sep) + sep + parts.last()
    }
}

/// The name of a method as the error texts spell it.
pub open spec fn method_name(m: AuthMethod) -> Seq<char> {
    match m {
        AuthMethod::GssapiWithMic => "GssapiWithMic"@,
        AuthMethod::PublicKey => "PublicKey"@,
        AuthMethod::KeyboardInteractive => "KeyboardInteractive"@,
        AuthMethod::Password => "Password"@,
        AuthMethod::NoAuthentication => "None"@,
    }
}

pub(crate) fn method_name_text(m: AuthMethod) -> (r: String)
    ensures
        r@ == method_name(m),
{
    match m {
        AuthMethod::GssapiWithMic => String::from_str("GssapiWithMic"),
        AuthMethod::PublicKey => String::from_str("PublicKey"),
        AuthMethod::KeyboardInteractive => String::from_str("KeyboardInteractive"),
        AuthMethod::Password => String::from_str("Password"),
        AuthMethod::NoAuthentication => String::from_str("None"),
    }
}

/// The name of a libssh status as the error texts spell it.
pub open spec fn status_name(s: LibsshAuthStatus) -> Seq<char> {
    match s {
        LibsshAuthStatus::Success => "Success"@,
        LibsshAuthStatus::Denied => "Denied"@,
        LibsshAuthStatus::Partial => "Partial"@,
        LibsshAuthStatus::Info => "Info"@,
        LibsshAuthStatus::Again => "Again"@,
    }
}

fn status_name_text(s: LibsshAuthStatus) -> (r: String)
    ensures
        r@ == status_name(s),
{
    match s {
        LibsshAuthStatus::Success => String::from_str("Success"),
        LibsshAuthStatus::Denied => String::from_str("Denied"),
        LibsshAuthStatus::Partial => String::from_str("Partial"),
        LibsshAuthStatus::Info => String::from_str("Info"),
        LibsshAuthStatus::Again => String::from_str("Again"),
    }
}

/// The step for a method, and what it adds to the attempted methods and to
/// the failures: `(step, attempted, failure)`.
pub open spec fn method_step(m: AuthMethod, methods: AdvertisedAuthMethods, has_password: bool) -> (
    LibsshAuthStep,
    Option<Seq<char>>,
    Option<Seq<char>>,
) {
    match m {
        AuthMethod::GssapiWithMic => if methods.gssapi_mic {
            (LibsshAuthStep::TryGssapi, Some("gssapi-with-mic"@), None)
        } else {
            (LibsshAuthStep::Skip, Some("gssapi-with-mic"@), Some("server did not advertise gssapi-with-mic"@))
        },
        AuthMethod::KeyboardInteractive => if !has_password {
            (LibsshAuthStep::Skip, None, None)
        } else if methods.interactive {
            (LibsshAuthStep::TryKeyboardInteractive, Some("keyboard-interactive"@), None)
        } else {
            (
                LibsshAuthStep::Skip,
                Some("keyboard-interactive"@),
                Some("server did not advertise keyboard-interactive"@),
            )
        },
        AuthMethod::Password => if !has_password {
            (LibsshAuthStep::Skip, None, None)
        } else if methods.password {
            (LibsshAuthStep::TryPassword, Some("password"@), None)
        } else {
            (
                LibsshAuthStep::Skip,
                Some("password"@),
                Some("server did not advertise password authentication"@),
            )
        },
        AuthMethod::NoAuthentication => (
            LibsshAuthStep::Skip,
            Some("none"@),
            Some("server rejected none authentication"@),
        ),
        AuthMethod::PublicKey => if methods.public_key {
            (LibsshAuthStep::TryPublicKey, Some("publickey"@), None)
        } else {
            (
                LibsshAuthStep::Skip,
                Some("publickey"@),
                Some("server did not advertise public-key authentication"@),
            )
        },
    }
}

/// `v` with `t` appended when there is one.
pub open spec fn push_opt(v: Seq<Seq<char>>, t: Option<Seq<char>>) -> Seq<Seq<char>> {
    match t {
        Some(s) => v.push(s),
        None => v,
    }
}

fn push_text(v: &mut Vec<String>, t: &str)
    ensures
        texts(final(v)@) == texts(old(v)@).push(t@),
{
    v.push(String::from_str(t));
    assert(texts(v@) =~= texts(old(v)@).push(t@));
}

fn push_owned(v: &mut Vec<String>, t: String)
    ensures
        texts(final(v)@) == texts(old(v)@).push(t@),
{
    v.push(t);
    assert(texts(v@) =~= texts(old(v)@).push(t@));
}

impl LibsshAuthLog {
    /// Nothing attempted, nothing failed.
    pub fn new() -> (r: Self)
        ensures
            r.attempted@.len() == 0,
            r.failures@.len() == 0,
    {
        LibsshAuthLog { attempted: Vec::new(), failures: Vec::new() }
    }

    /// Decides what to do for the next method of the order, given the
    /// methods the server advertises and whether a password is at hand.
    pub fn method_step(
        &mut self,
        method: AuthMethod,
        methods: AdvertisedAuthMethods,
        has_password: bool,
    ) -> (r: LibsshAuthStep)
        ensures
            r == method_step(method, methods, has_password).0,
            texts(final(self).attempted@) == push_opt(
                texts(old(self).attempted@),
                method_step(method, methods, has_password).1,
            ),
            texts(final(self).failures@) == push_opt(
                texts(old(self).failures@),
                method_step(method, methods, has_password).2,
            ),
    {
        match method {
            AuthMethod::GssapiWithMic => {
                push_text(&mut self.attempted, "gssapi-with-mic");
                if methods.gssapi_mic {
                    LibsshAuthStep::TryGssapi
                } else {
                    push_text(&mut self.failures, "server did not advertise gssapi-with-mic");
                    LibsshAuthStep::Skip
                }
            },
            AuthMethod::KeyboardInteractive => {
                if !has_password {
                    return LibsshAuthStep::Skip;
                }
                push_text(&mut self.attempted, "keyboard-interactive");
                if methods.interactive {
                    LibsshAuthStep::TryKeyboardInteractive
                } else {
                    push_text(&mut self.failures, "server did not advertise keyboard-interactive");
                    LibsshAuthStep::Skip
                }
            },
            AuthMethod::Password => {
                if !has_password {
                    return LibsshAuthStep::Skip;
                }
                push_text(&mut self.attempted, "password");
                if methods.password {
                    LibsshAuthStep::TryPassword
                } else {
                    push_text(&mut self.failures, "server did not advertise password authentication");
                    LibsshAuthStep::Skip
                }
            },
            AuthMethod::NoAuthentication => {
                push_text(&mut self.attempted, "none");
                push_text(&mut self.failures, "server rejected none authentication");
                LibsshAuthStep::Skip
            },
            AuthMethod::PublicKey => {
                push_text(&mut self.attempted, "publickey");
                if methods.public_key {
                    LibsshAuthStep::TryPublicKey
                } else {
                    push_text(
                        &mut self.failures,
                        "server did not advertise public-key authentication",
                    );
                    LibsshAuthStep::Skip
                }
            },
        }
    }

    /// Takes the server's answer to a method other than public key:
    /// success ends with that method, a denial or partial acceptance is
    /// logged and the next method follows, any other answer is an error.
    pub fn method_status(&mut self, method: AuthMethod, status: LibsshAuthStatus) -> (r: Option<
        Result<AuthMethod, String>,
    >)
        ensures
            final(self).attempted == old(self).attempted,
            match status {
                LibsshAuthStatus::Success => r == Some(Ok::<AuthMethod, String>(method)) && final(self).failures
                    == old(self).failures,
                LibsshAuthStatus::Denied => r is None && texts(final(self).failures@) == texts(
                    old(self).failures@,
                ).push(
                    if method == AuthMethod::GssapiWithMic {
                        "GSSAPI authentication was denied"@
                    } else {
                        method_name(method) + " was denied"@
                    },
                ),
                LibsshAuthStatus::Partial => r is None && texts(final(self).failures@) == texts(
                    old(self).failures@,
                ).push(
                    if method == AuthMethod::GssapiWithMic {
                        "GSSAPI authentication was only partially accepted"@
                    } else {
                        method_name(method) + " was only partially accepted"@
                    },
                ),
                LibsshAuthStatus::Info => final(self).failures == old(self).failures && (r matches Some(
                    Err(e),
                ) && e@ == "libssh "@ + method_name(method)
                    + " authentication returned an unexpected prompt state"@),
                LibsshAuthStatus::Again => final(self).failures == old(self).failures && (r matches Some(
                    Err(e),
                ) && e@ == "libssh "@ + method_name(method)
                    + " authentication unexpectedly requested a retry"@),
            },
    {
        match status {
            LibsshAuthStatus::Success => Some(Ok(method)),
            LibsshAuthStatus::Denied => {
                if method == AuthMethod::GssapiWithMic {
                    push_text(&mut self.failures, "GSSAPI authentication was denied");
                } else {
                    let mut t = method_name_text(method);
                    push_str(&mut t, " was denied");
                    push_owned(&mut self.failures, t);
                }
                None
            },
            LibsshAuthStatus::Partial => {
                if method == AuthMethod::GssapiWithMic {
                    push_text(&mut self.failures, "GSSAPI authentication was only partially accepted");
                } else {
                    let mut t = method_name_text(method);
                    push_str(&mut t, " was only partially accepted");
                    push_owned(&mut self.failures, t);
                }
                None
            },
            LibsshAuthStatus::Info => {
                let mut e = String::from_str("libssh ");
                let n = method_name_text(method);
                push_str(&mut e, n.as_str());
                push_str(&mut e, " authentication returned an unexpected prompt state");
                Some(Err(e))
            },
            LibsshAuthStatus::Again => {
                let mut e = String::from_str("libssh ");
                let n = method_name_text(method);
                push_str(&mut e, n.as_str());
                push_str(&mut e, " authentication unexpectedly requested a retry");
                Some(Err(e))
            },
        }
    }

    /// Takes the outcome of offering the SSH agent's keys (`position` says
    /// whether before or after the profile's keys): whether it succeeded;
    /// a failure or refusal is logged, a prompt or retry is an error.
    pub fn agent_outcome(&mut self, position: &str, outcome: Result<LibsshAuthStatus, String>) -> (r: Result<
        bool,
        String,
    >)
        ensures
            final(self).attempted == old(self).attempted,
            match outcome {
                Err(e) => r == Ok::<bool, String>(false) && texts(final(self).failures@) == texts(
                    old(self).failures@,
                ).push("SSH agent ("@ + position@ + ") failed: "@ + e@),
                Ok(LibsshAuthStatus::Success) => r == Ok::<bool, String>(true) && final(self).failures
                    == old(self).failures,
                Ok(LibsshAuthStatus::Denied) => r == Ok::<bool, String>(false) && texts(
                    final(self).failures@,
                ) == texts(old(self).failures@).push("SSH agent ("@ + position@ + ") was denied"@),
                Ok(LibsshAuthStatus::Partial) => r == Ok::<bool, String>(false) && texts(
                    final(self).failures@,
                ) == texts(old(self).failures@).push(
                    "SSH agent ("@ + position@ + ") was only partially accepted"@,
                ),
                Ok(s) => final(self).failures == old(self).failures && (r matches Err(e) && e@
                    == "libssh SSH agent authentication ("@ + position@ + ") returned "@
                    + status_name(s)),
            },
    {
        match outcome {
            Err(e) => {
                let mut t = String::from_str("SSH agent (");
                push_str(&mut t, position);
                push_str(&mut t, ") failed: ");
                push_str(&mut t, e.as_str());
                push_owned(&mut self.failures, t);
                Ok(false)
            },
            Ok(LibsshAuthStatus::Success) => Ok(true),
            Ok(LibsshAuthStatus::Denied) => {
                let mut t = String::from_str("SSH agent (");
                push_str(&mut t, position);
                push_str(&mut t, ") was denied");
                push_owned(&mut self.failures, t);
                Ok(false)
            },
            Ok(LibsshAuthStatus::Partial) => {
                let mut t = String::from_str("SSH agent (");
                push_str(&mut t, position);
                push_str(&mut t, ") was only partially accepted");
                push_owned(&mut self.failures, t);
                Ok(false)
            },
            Ok(s) => {
                let mut e = String::from_str("libssh SSH agent authentication (");
                push_str(&mut e, position);
                push_str(&mut e, ") returned ");
                let n = status_name_text(s);
                push_str(&mut e, n.as_str());
                Err(e)
            },
        }
    }

    /// Logs that the private key of an identity could not be loaded.
    pub fn key_load_failed(&mut self, label: &str, error: &str)
        ensures
            final(self).attempted == old(self).attempted,
            texts(final(self).failures@) == texts(old(self).failures@).push(label@ + ": "@ + error@),
    {
        let mut t = String::from_str(label);
        push_str(&mut t, ": ");
        push_str(&mut t, error);
        push_owned(&mut self.failures, t);
    }

    /// Takes the server's answer to one of the profile's private keys.
    pub fn public_key_status(&mut self, label: &str, status: LibsshAuthStatus) -> (r: Option<
        Result<AuthMethod, String>,
    >)
        ensures
            final(self).attempted == old(self).attempted,
            match status {
                LibsshAuthStatus::Success => r == Some(Ok::<AuthMethod, String>(AuthMethod::PublicKey))
                    && final(self).failures == old(self).failures,
                LibsshAuthStatus::Denied => r is None && texts(final(self).failures@) == texts(
                    old(self).failures@,
                ).push(label@ + ": public key was denied"@),
                LibsshAuthStatus::Partial => r is None && texts(final(self).failures@) == texts(
                    old(self).failures@,
                ).push(label@ + ": public key was only partially accepted"@),
                _ => final(self).failures == old(self).failures && (r matches Some(Err(e)) && e@
                    == "libssh public-key authentication for "@ + label@ + " returned "@
                    + status_name(status)),
            },
    {
        match status {
            LibsshAuthStatus::Success => Some(Ok(AuthMethod::PublicKey)),
            LibsshAuthStatus::Denied => {
                let mut t = String::from_str(label);
                push_str(&mut t, ": public key was denied");
                push_owned(&mut self.failures, t);
                None
            },
            LibsshAuthStatus::Partial => {
                let mut t = String::from_str(label);
                push_str(&mut t, ": public key was only partially accepted");
                push_owned(&mut self.failures, t);
                None
            },
            _ => {
                let mut e = String::from_str("libssh public-key authentication for ");
                push_str(&mut e, label);
                push_str(&mut e, " returned ");
                let n = status_name_text(status);
                push_str(&mut e, n.as_str());
                Some(Err(e))
            },
        }
    }

    /// After the profile's keys: notes when there was no key to offer and
    /// no agent either.
    pub fn public_keys_done(&mut self, identity_attempted: bool, offer_agent_before: bool, offer_agent_after: bool)
        ensures
            final(self).attempted == old(self).attempted,
            !identity_attempted && !offer_agent_before && !offer_agent_after ==> texts(final(self).failures@)
                == texts(old(self).failures@).push("profile has no usable explicit private-key identity"@),
            identity_attempted || offer_agent_before || offer_agent_after ==> final(self).failures
                == old(self).failures,
    {
        if !identity_attempted && !offer_agent_before && !offer_agent_after {
            push_text(&mut self.failures, "profile has no usable explicit private-key identity");
        }
    }
}

/// The identity's private key can be offered by libssh itself.
pub open spec fn libssh_key_identity(r: IdentityRef) -> bool {
    r.source == IdentitySource::SystemFile || r.source == IdentitySource::ProfileVault
}

/// Whether libssh loads this identity's private key itself: keys in files
/// and in the profile vault.
pub fn is_libssh_key_identity(identity: &IdentityRef) -> (r: bool)
    ensures
        r == libssh_key_identity(*identity),
{
    match identity.source {
        IdentitySource::SystemFile => true,
        IdentitySource::ProfileVault => true,
        _ => false,
    }
}

/// The order allows authentication with no credentials.
pub open spec fn allows_none(order: Seq<AuthMethod>) -> bool {
    exists|i: int| 0 <= i < order.len() && order[i] == AuthMethod::NoAuthentication
}

/// When the server accepts authentication with no credentials, the result:
/// success only if the order allows it.
pub fn libssh_none_accepted(auth_order: &[AuthMethod]) -> (r: Result<AuthMethod, String>)
    ensures
        allows_none(auth_order@) ==> r == Ok::<AuthMethod, String>(AuthMethod::NoAuthentication),
        !allows_none(auth_order@) ==> (r matches Err(e) && e@
            == "SSH server accepted none authentication, but the profile does not allow it"@),
{
    let mut i: usize = 0;
    while i < auth_order.len()
        invariant
            i <= auth_order@.len(),
            forall|k: int| 0 <= k < i ==> auth_order@[k] != AuthMethod::NoAuthentication,
        decreases auth_order@.len() - i,
    {
        if auth_order[i] == AuthMethod::NoAuthentication {
            return Ok(AuthMethod::NoAuthentication);
        }
        i = i + 1;
    }
    Err(String::from_str("SSH server accepted none authentication, but the profile does not allow it"))
}

fn join_texts(parts: &Vec<String>, sep: &str) -> (r: String)
    ensures
        r@ == joined(texts(parts@), sep@),
{
    let mut s = String::new();
    let mut i: usize = 0;
    while i < parts.len()
        invariant
            i <= parts@.len(),
            s@ == joined(texts(parts@.take(i as int)), sep@),
        decreases parts@.len() - i,
    {
        proof {
            assert(texts(parts@.take(i + 1)).drop_last() =~= texts(parts@.take(i as int)));
            assert(texts(parts@.take(i + 1)).last() == parts@[i as int]@);
            if i == 0 {
                assert(texts(parts@.take(1)) =~= seq![parts@[0]@]);
            }
        }
        if i > 0 {
            push_str(&mut s, sep);
        }
        push_str(&mut s, parts[i].as_str());
        i = i + 1;
    }
    assert(parts@.take(parts@.len() as int) =~= parts@);
    s
}

/// The error when no method succeeded.
pub open spec fn auth_failure_text(order: Seq<AuthMethod>, attempted: Seq<Seq<char>>, failures: Seq<Seq<char>>) -> Seq<
    char,
> {
    if order == seq![AuthMethod::GssapiWithMic] && failures.contains(
        "server did not advertise gssapi-with-mic"@,
    ) {
        "SSH server did not advertise gssapi-with-mic"@
    } else {
        "libssh SSH authentication failed; attempted: "@ + (if attempted.len() == 0 {
            "none"@
        } else {
            joined(attempted, ", "@)
        }) + (if failures.len() == 0 {
            seq![]
        } else {
            "; "@ + joined(failures, " | "@)
        })
    }
}

/// The error reported when every method of the order failed.
pub fn libssh_auth_failure(auth_order: &[AuthMethod], log: &LibsshAuthLog) -> (r: String)
    ensures
        r@ == auth_failure_text(auth_order@, texts(log.attempted@), texts(log.failures@)),
{
    let only_gssapi = auth_order.len() == 1 && auth_order[0] == AuthMethod::GssapiWithMic;
    proof {
        if only_gssapi {
            assert(auth_order@ =~= seq![AuthMethod::GssapiWithMic]);
        }
        if auth_order@ == seq![AuthMethod::GssapiWithMic] {
            assert(auth_order@.len() == 1 && auth_order@[0] == AuthMethod::GssapiWithMic);
        }
    }
    if only_gssapi {
        let mut i: usize = 0;
        while i < log.failures.len()
            invariant
                i <= log.failures@.len(),
                auth_order@ == seq![AuthMethod::GssapiWithMic],
                forall|k: int| 0 <= k < i ==> log.failures@[k]@ != "server did not advertise gssapi-with-mic"@,
            decreases log.failures@.len() - i,
        {
            if crate::text::str_eq(log.failures[i].as_str(), "server did not advertise gssapi-with-mic") {
                proof {
                    assert(texts(log.failures@)[i as int] == "server did not advertise gssapi-with-mic"@);
                    assert(texts(log.failures@).contains("server did not advertise gssapi-with-mic"@));
                }
                return String::from_str("SSH server did not advertise gssapi-with-mic");
            }
            i = i + 1;
        }
        proof {
            assert forall|k: int| 0 <= k < texts(log.failures@).len() implies texts(log.failures@)[k]
                != "server did not advertise gssapi-with-mic"@ by {}
        }
    }
    let mut s = String::from_str("libssh SSH authentication failed; attempted: ");
    if log.attempted.len() == 0 {
        push_str(&mut s, "none");
    } else {
        let a = join_texts(&log.attempted, ", ");
        push_str(&mut s, a.as_str());
    }
    if log.failures.len() > 0 {
        push_str(&mut s, "; ");
        let f = join_texts(&log.failures, " | ");
        push_str(&mut s, f.as_str());
    } else {
        assert(s@ =~= s@ + seq![]);
    }
    s
}

} // verus!
