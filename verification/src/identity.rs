//! Identity references of an SSH profile and the authentication-method order
//! that a connection uses.
use vstd::prelude::*;

verus! {

/// Where the key material of an identity lives.
#[derive(Clone, Copy, Debug, PartialEq, Eq, Structural)]
pub enum IdentitySource {
    Agent,
    ProfileVault,
    PublicKeyOnly,
    SystemFile,
}

/// One identity that a profile may offer to a server.
#[derive(Clone, Debug)]
pub struct IdentityRef {
    pub id: String,
    pub label: String,
    pub source: IdentitySource,
    pub fingerprint_sha256: Option<String>,
    pub path: Option<String>,
    pub secret_ref: Option<String>,
}

/// An SSH user-authentication method.
#[derive(Clone, Copy, Debug, PartialEq, Eq, Structural)]
pub enum AuthMethod {
    GssapiWithMic,
    PublicKey,
    KeyboardInteractive,
    Password,
    NoAuthentication,
}

/// How a profile orders its authentication methods, and whether it offers
/// only the identities it names.
#[derive(Clone, Debug)]
pub struct IdentityPolicy {
    pub auth_order: Vec<AuthMethod>,
    pub last_successful: Option<AuthMethod>,
    pub record_success: bool,
    pub identities_only: bool,
}

/// When the keys of a running SSH agent are offered during public-key
/// authentication.
#[derive(Clone, Copy, Debug, PartialEq, Eq, Structural)]
pub enum AgentOfferMode {
    Disabled,
    BeforeProfileKeys,
    AfterProfileKeys,
}

/// Whether and when the profile may use a running SSH agent.
#[derive(Clone, Copy, Debug)]
pub struct AgentPolicy {
    pub enabled: bool,
    pub offer_mode: AgentOfferMode,
}

fn copy_text(o: &Option<String>) -> (r: Option<String>)
    ensures
        r == *o,
{
    match o {
        Some(s) => Some(s.clone()),
        None => None,
    }
}

/// A field-for-field copy of an identity reference.
pub fn copy_identity_ref(r: &IdentityRef) -> (c: IdentityRef)
    ensures
        c == *r,
{
    IdentityRef {
        id: r.id.clone(),
        label: r.label.clone(),
        source: r.source,
        fingerprint_sha256: copy_text(&r.fingerprint_sha256),
        path: copy_text(&r.path),
        secret_ref: copy_text(&r.secret_ref),
    }
}

} // verus!
