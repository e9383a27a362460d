//! What the gateway and the issuer exchange: who is calling, what is issued,
//! and how a request can fail.

use crate::name_map::NameMap;
use crate::text::opt_text;
use vstd::prelude::*;

verus! {

/// The caller, as the gateway knows it.
#[derive(Debug, Clone)]
pub struct PluginIdentity {
    pub kind: String,
    /// How far the identity was checked; `verified` is the only trusted level.
    pub trust_level: String,
    pub subject_id: Option<String>,
    pub auth_provider: Option<String>,
    pub issuer: Option<String>,
    pub roles: Vec<String>,
    pub groups: Vec<String>,
    pub scopes: Vec<String>,
    pub attributes: NameMap<String>,
}

/// Why no credential was issued.
#[derive(Debug, Clone, PartialEq, Eq)]
pub enum CredentialError {
    NotAuthorized { reason: String },
    Throttled { reason: String },
    Misconfigured { reason: String },
    Backend { reason: String },
}

/// A [`CredentialError`] with its text as a sequence of characters.
pub enum CredentialErrorView {
    NotAuthorized { reason: Seq<char> },
    Throttled { reason: Seq<char> },
    Misconfigured { reason: Seq<char> },
    Backend { reason: Seq<char> },
}

impl View for CredentialError {
    type V = CredentialErrorView;

    open spec fn view(&self) -> CredentialErrorView {
        match self {
            CredentialError::NotAuthorized { reason } => CredentialErrorView::NotAuthorized {
                reason: reason@,
            },
            CredentialError::Throttled { reason } => CredentialErrorView::Throttled {
                reason: reason@,
            },
            CredentialError::Misconfigured { reason } => CredentialErrorView::Misconfigured {
                reason: reason@,
            },
            CredentialError::Backend { reason } => CredentialErrorView::Backend { reason: reason@ },
        }
    }
}

/// A credential handed to the caller.
#[derive(Debug, Clone)]
pub struct IssuedCredential {
    pub value: Option<String>,
    pub parts: NameMap<String>,
    pub ttl_seconds: u64,
    pub lease_id: Option<String>,
    pub issued_at: String,
    pub metadata: NameMap<String>,
}

/// An [`IssuedCredential`] with its texts as sequences of characters.
#[verifier::ext_equal]
pub struct IssuedCredentialView {
    pub value: Option<Seq<char>>,
    pub parts: Map<Seq<char>, Seq<char>>,
    pub ttl_seconds: u64,
    pub lease_id: Option<Seq<char>>,
    pub issued_at: Seq<char>,
    pub metadata: Map<Seq<char>, Seq<char>>,
}

/// A map of texts, with the texts as sequences of characters.
pub open spec fn text_map(m: Map<Seq<char>, String>) -> Map<Seq<char>, Seq<char>> {
    m.map_values(|text: String| text@)
}

impl View for IssuedCredential {
    type V = IssuedCredentialView;

    open spec fn view(&self) -> IssuedCredentialView {
        IssuedCredentialView {
            value: opt_text(self.value),
            parts: text_map(self.parts@),
            ttl_seconds: self.ttl_seconds,
            lease_id: opt_text(self.lease_id),
            issued_at: self.issued_at@,
            metadata: text_map(self.metadata@),
        }
    }
}

/// What a plugin does for the gateway.
#[derive(Debug, Clone, Copy, PartialEq, Eq, Structural)]
pub enum PluginClass {
    CredentialIssuer,
}

/// How a plugin presents itself to the gateway.
#[derive(Debug, Clone)]
pub struct PluginManifest {
    pub id: String,
    pub version: String,
    pub name: String,
    pub plugin_class: PluginClass,
    pub protocol_version: String,
    pub license: Option<String>,
    pub required_capabilities: Vec<String>,
    pub tags: Vec<String>,
    pub provides: Vec<String>,
    pub provides_schemes: Vec<String>,
    pub module_path_prefix: String,
    pub backend_profile: Option<String>,
}

} // verus!
