//! The issuer itself: which service account a caller may have impersonated, and
//! what is handed out for it.

use crate::client::{
    accept_access_token_at, accept_id_token_at, access_token_body, action_url, bad_expiry,
    id_token_body, jwt_expiry, seconds_until, undecodable, AccessTokenReply, GcpClient, IamRequest,
    IamRequestView, IssuedToken,
};
use crate::config::{
    completes, config_error_text, is_fault, is_valid, ConfigDocument, ConfigError, ConfigErrorView,
    GcpImpersonationConfig, TargetConfig, TokenKind,
};
use crate::identity_mapping::{
    is_sa_email, is_valid_sa_email, resolution, resolve_target, Resolution, ResolutionView,
};
use crate::name_map::NameMap;
use crate::outside::{is_utc_time, rfc3339_now, rfc3339_timestamp, unix_now};
use crate::protocol::{
    text_map, CredentialError, CredentialErrorView, IssuedCredential, IssuedCredentialView,
    PluginClass, PluginIdentity, PluginManifest,
};
use crate::text::{chars_of, join, joined, same_text, string_of, without_trailing_slashes};
use vstd::prelude::*;

verus! {

/// The name under which the gateway knows the plugin.
pub const PLUGIN_ID: &'static str = "dev.mcpg.credential.gcp-impersonation";

/// Longest label that is kept of a caller's subject, in characters.
pub const MAX_SUBJECT_CHARS: usize = 256;

/// Why a request for a credential is turned down before any call is made.
#[derive(Debug)]
pub enum Refusal {
    UnknownTarget { name: String },
    UntrustedIdentity { trust_level: String },
    InvalidServiceAccount,
    NotAllowed,
    EmptyIdentity { reason: String },
    SubstitutionFailed { field: String },
}

/// A [`Refusal`] with its texts as sequences of characters.
pub enum RefusalView {
    UnknownTarget { name: Seq<char> },
    UntrustedIdentity { trust_level: Seq<char> },
    InvalidServiceAccount,
    NotAllowed,
    EmptyIdentity { reason: Seq<char> },
    SubstitutionFailed { field: Seq<char> },
}

impl View for Refusal {
    type V = RefusalView;

    open spec fn view(&self) -> RefusalView {
        match self {
            Refusal::UnknownTarget { name } => RefusalView::UnknownTarget { name: name@ },
            Refusal::UntrustedIdentity { trust_level } => RefusalView::UntrustedIdentity {
                trust_level: trust_level@,
            },
            Refusal::InvalidServiceAccount => RefusalView::InvalidServiceAccount,
            Refusal::NotAllowed => RefusalView::NotAllowed,
            Refusal::EmptyIdentity { reason } => RefusalView::EmptyIdentity { reason: reason@ },
            Refusal::SubstitutionFailed { field } => RefusalView::SubstitutionFailed {
                field: field@,
            },
        }
    }
}

/// What the caller is told of a refusal.
pub open spec fn refusal_error(refusal: RefusalView) -> CredentialErrorView {
    match refusal {
        RefusalView::UnknownTarget { name } => CredentialErrorView::Misconfigured {
            reason: "unknown target: "@ + name,
        },
        RefusalView::UntrustedIdentity { trust_level } => CredentialErrorView::NotAuthorized {
            reason: "identity-derived service account requires Verified trust; caller trust is `"@
                + trust_level + "`"@,
        },
        RefusalView::InvalidServiceAccount => CredentialErrorView::NotAuthorized {
            reason: "resolved value is not a valid service-account email"@,
        },
        RefusalView::NotAllowed => CredentialErrorView::NotAuthorized {
            reason: "resolved service account is not in this target's allowed_service_accounts"@,
        },
        RefusalView::EmptyIdentity { reason } => CredentialErrorView::NotAuthorized { reason },
        RefusalView::SubstitutionFailed { field } => CredentialErrorView::NotAuthorized {
            reason: "identity template substitution failed: field `"@ + field
                + "` is None or out-of-bounds"@,
        },
    }
}

/// Under which label a refusal is counted. A request for an unknown target is
/// not counted.
pub open spec fn refusal_label(refusal: RefusalView) -> Option<Seq<char>> {
    match refusal {
        RefusalView::UnknownTarget { .. } => None,
        RefusalView::UntrustedIdentity { .. } => Some("untrusted_identity"@),
        RefusalView::InvalidServiceAccount => Some("invalid_service_account"@),
        RefusalView::NotAllowed => Some("sa_not_allowed"@),
        RefusalView::EmptyIdentity { .. } => Some("empty_identity"@),
        RefusalView::SubstitutionFailed { .. } => Some("substitution_failed"@),
    }
}

impl Refusal {
    /// What the caller is told.
    pub fn error(&self) -> (r: CredentialError)
        ensures
            r@ == refusal_error(self@),
    {
        match self {
            Refusal::UnknownTarget { name } => CredentialError::Misconfigured {
                reason: "unknown target: ".to_owned().concat(name.as_str()),
            },
            Refusal::UntrustedIdentity { trust_level } => {
                let text: &str =
                    "identity-derived service account requires Verified trust; caller trust is `";
                CredentialError::NotAuthorized {
                    reason: text.to_owned().concat(trust_level.as_str()).concat("`"),
                }
            },
            Refusal::InvalidServiceAccount => CredentialError::NotAuthorized {
                reason: "resolved value is not a valid service-account email".to_owned(),
            },
            Refusal::NotAllowed => {
                let text: &str =
                    "resolved service account is not in this target's allowed_service_accounts";
                CredentialError::NotAuthorized { reason: text.to_owned() }
            },
            Refusal::EmptyIdentity { reason } => CredentialError::NotAuthorized {
                reason: reason.clone(),
            },
            Refusal::SubstitutionFailed { field } => CredentialError::NotAuthorized {
                reason: "identity template substitution failed: field `".to_owned().concat(
                    field.as_str(),
                ).concat("` is None or out-of-bounds"),
            },
        }
    }

    /// Under which label the refusal is counted.
    pub fn label(&self) -> (r: Option<&'static str>)
        ensures
            match refusal_label(self@) {
                Some(label) => r matches Some(found) && found@ == label,
                None => r is None,
            },
    {
        match self {
            Refusal::UnknownTarget { .. } => None,
            Refusal::UntrustedIdentity { .. } => Some("untrusted_identity"),
            Refusal::InvalidServiceAccount => Some("invalid_service_account"),
            Refusal::NotAllowed => Some("sa_not_allowed"),
            Refusal::EmptyIdentity { .. } => Some("empty_identity"),
            Refusal::SubstitutionFailed { .. } => Some("substitution_failed"),
        }
    }
}

/// Whether a target leaves a service account to callers: it has no allowlist,
/// or the account is on it.
pub open spec fn is_listed(target: TargetConfig, email: Seq<char>) -> bool {
    target.allowed_service_accounts matches Some(allowed) ==> exists|i: int|
        0 <= i < allowed@.len() && (#[trigger] allowed@[i])@ == email
}

/// Whether a caller's identity was checked.
pub open spec fn is_trusted(identity: PluginIdentity) -> bool {
    identity.trust_level@ == "verified"@
}

/// Which service account is impersonated at a target for a caller, or why none
/// is. An account that comes from the caller's identity takes a trusted caller
/// and has to be on the allowlist, where there is one; one that the operator
/// fixed is exempt from both.
pub open spec fn target_grant(identity: PluginIdentity, target: TargetConfig) -> Result<
    Seq<char>,
    RefusalView,
> {
    match resolution(identity, target) {
        ResolutionView::Target { email, identity_derived } => if identity_derived && !is_trusted(
            identity,
        ) {
            Err(RefusalView::UntrustedIdentity { trust_level: identity.trust_level@ })
        } else if !is_sa_email(email) {
            Err(RefusalView::InvalidServiceAccount)
        } else if identity_derived && !is_listed(target, email) {
            Err(RefusalView::NotAllowed)
        } else {
            Ok(email)
        },
        ResolutionView::EmptyDerived { reason } => Err(RefusalView::EmptyIdentity { reason }),
        ResolutionView::SubstitutionFailed { field } => Err(
            RefusalView::SubstitutionFailed { field },
        ),
    }
}

/// Which service account is impersonated for a caller who asks for a target by
/// its name, or why none is.
pub open spec fn grant(
    config: GcpImpersonationConfig,
    identity: PluginIdentity,
    target_name: Seq<char>,
) -> Result<Seq<char>, RefusalView> {
    if config.targets@.dom().contains(target_name) {
        target_grant(identity, config.targets@[target_name])
    } else {
        Err(RefusalView::UnknownTarget { name: target_name })
    }
}

fn contains_text(list: &Vec<String>, text: &str) -> (r: bool)
    ensures
        r == exists|i: int| 0 <= i < list@.len() && (#[trigger] list@[i])@ == text@,
{
    let mut i: usize = 0;
    while i < list.len()
        invariant
            i <= list@.len(),
            forall|j: int| 0 <= j < i ==> (#[trigger] list@[j])@ != text@,
        decreases list@.len() - i,
    {
        if same_text(list[i].as_str(), text) {
            return true;
        }
        i = i + 1;
    }
    false
}

/// Decides which service account a target impersonates for a caller.
pub fn authorize_target(identity: &PluginIdentity, target: &TargetConfig) -> (r: Result<
    String,
    Refusal,
>)
    ensures
        match target_grant(*identity, *target) {
            Ok(email) => r matches Ok(found) && found@ == email,
            Err(refusal) => r matches Err(found) && found@ == refusal,
        },
{
    match resolve_target(identity, target) {
        Resolution::Target { email, identity_derived } => {
            if identity_derived && !same_text(identity.trust_level.as_str(), "verified") {
                return Err(
                    Refusal::UntrustedIdentity { trust_level: identity.trust_level.clone() },
                );
            }
            if !is_valid_sa_email(email.as_str()) {
                return Err(Refusal::InvalidServiceAccount);
            }
            if identity_derived {
                if let Some(allowed) = &target.allowed_service_accounts {
                    if !contains_text(allowed, email.as_str()) {
                        return Err(Refusal::NotAllowed);
                    }
                }
            }
            Ok(email)
        },
        Resolution::EmptyDerived { reason } => Err(Refusal::EmptyIdentity { reason }),
        Resolution::SubstitutionFailed { field } => Err(Refusal::SubstitutionFailed { field }),
    }
}

/// A request that was allowed.
#[derive(Debug)]
pub struct Grant<'a> {
    pub target: &'a TargetConfig,
    pub service_account: String,
}

/// The request to the IAM Credentials API for a service account at a target.
pub open spec fn token_request(
    endpoint: Seq<char>,
    target: TargetConfig,
    sa: Seq<char>,
) -> IamRequestView {
    match target.token_kind {
        TokenKind::AccessToken => IamRequestView {
            url: action_url(endpoint, sa, ":generateAccessToken"@),
            body: access_token_body(target.scopes@, target.lifetime_seconds, target.delegates@),
        },
        TokenKind::IdToken => IamRequestView {
            url: action_url(endpoint, sa, ":generateIdToken"@),
            body: id_token_body(
                match target.audience {
                    Some(audience) => audience@,
                    None => ""@,
                },
                target.include_email,
                target.delegates@,
            ),
        },
    }
}

/// Whether a character is one of Unicode's control characters.
pub open spec fn is_control_char(c: char) -> bool {
    c <= '\u{1f}' || '\u{7f}' <= c <= '\u{9f}'
}

/// A text without its control characters.
pub open spec fn without_controls(s: Seq<char>) -> Seq<char> {
    s.filter(|c: char| !is_control_char(c))
}

/// What is kept of a subject as a label.
pub open spec fn subject_label(s: Seq<char>) -> Seq<char> {
    let kept = without_controls(s);
    if kept.len() > MAX_SUBJECT_CHARS {
        kept.take(MAX_SUBJECT_CHARS as int)
    } else {
        kept
    }
}

/// Makes a label of a caller's subject, for attribution only: control
/// characters are dropped and the length is bounded.
pub fn sanitize_subject(subject: &str) -> (r: String)
    ensures
        r@ == subject_label(subject@),
{
    let x: Vec<char> = chars_of(subject);
    let mut kept: Vec<char> = Vec::new();
    let mut i: usize = 0;
    assert(x@.take(0) =~= Seq::<char>::empty());
    reveal(Seq::filter);
    while i < x.len() && kept.len() < MAX_SUBJECT_CHARS
        invariant
            i <= x@.len(),
            kept@.len() <= MAX_SUBJECT_CHARS,
            kept@ == without_controls(x@.take(i as int)),
        decreases x@.len() - i,
    {
        proof {
            assert(x@.take(i + 1).drop_last() =~= x@.take(i as int));
            reveal(Seq::filter);
        }
        let c: char = x[i];
        if !(c <= '\u{1f}' || ('\u{7f}' <= c && c <= '\u{9f}')) {
            kept.push(c);
        }
        i = i + 1;
    }
    proof {
        lemma_kept_prefix(x@, i as int);
        if i == x@.len() {
            assert(x@.take(i as int) =~= x@);
        }
        assert(without_controls(x@).take(kept@.len() as int) =~= kept@);
    }
    string_of(kept.as_slice())
}

proof fn lemma_kept_prefix(s: Seq<char>, i: int)
    requires
        0 <= i <= s.len(),
    ensures
        without_controls(s.take(i)).is_prefix_of(without_controls(s)),
    decreases s.len() - i,
{
    reveal(Seq::filter);
    if i < s.len() {
        assert(s.take(i + 1).drop_last() =~= s.take(i));
        lemma_kept_prefix(s, i + 1);
    } else {
        assert(s.take(i) =~= s);
    }
}

/// The time to live of a credential: that of its token, bounded by the
/// operator's limit in milliseconds, which counts as a second at least.
pub open spec fn capped_ttl(token_ttl_secs: u64, max_cache_ttl_ms: u64) -> u64 {
    let limit: u64 = if max_cache_ttl_ms < 1000 {
        1
    } else {
        (max_cache_ttl_ms / 1000) as u64
    };
    if token_ttl_secs < limit {
        token_ttl_secs
    } else {
        limit
    }
}

/// Bounds the time to live of a token by the operator's limit.
pub fn cap_ttl_seconds(token_ttl_secs: u64, max_cache_ttl_ms: u64) -> (r: u64)
    ensures
        r == capped_ttl(token_ttl_secs, max_cache_ttl_ms),
{
    let whole: u64 = max_cache_ttl_ms / 1000;
    let limit: u64 = if whole < 1 {
        1
    } else {
        whole
    };
    if token_ttl_secs < limit {
        token_ttl_secs
    } else {
        limit
    }
}

/// The time, to the second, in RFC 3339 form. Which time it is, is not stated:
/// it is the machine's clock.
pub fn now_rfc3339() -> (r: String)
    ensures
        is_utc_time(r@),
{
    rfc3339_now()
}

/// How a kind of token is named.
pub open spec fn kind_name(kind: TokenKind) -> Seq<char> {
    match kind {
        TokenKind::AccessToken => "access_token"@,
        TokenKind::IdToken => "id_token"@,
    }
}

fn kind_label(kind: TokenKind) -> (r: &'static str)
    ensures
        r@ == kind_name(kind),
{
    match kind {
        TokenKind::AccessToken => "access_token",
        TokenKind::IdToken => "id_token",
    }
}

/// What is noted about a credential.
pub open spec fn credential_metadata(
    kind: TokenKind,
    scopes: Seq<String>,
    sa: Seq<char>,
    subject: Option<String>,
) -> Map<Seq<char>, Seq<char>> {
    let named = Map::<Seq<char>, Seq<char>>::empty().insert("gcp.service_account"@, sa).insert(
        "gcp.token_kind"@,
        kind_name(kind),
    );
    let scoped = if scopes.len() > 0 {
        named.insert("gcp.scopes"@, joined(scopes, " "@))
    } else {
        named
    };
    match subject {
        Some(subject) => scoped.insert("gcp.caller_subject"@, subject_label(subject@)),
        None => scoped,
    }
}

/// The credential for a token that lives `ttl_seconds` more.
pub open spec fn credential(
    kind: TokenKind,
    target: TargetConfig,
    sa: Seq<char>,
    subject: Option<String>,
    token: Seq<char>,
    ttl_seconds: u64,
    issued_at: Seq<char>,
) -> IssuedCredentialView {
    IssuedCredentialView {
        value: Some(token),
        parts: Map::<Seq<char>, Seq<char>>::empty().insert(kind_name(kind), token),
        ttl_seconds: capped_ttl(ttl_seconds, target.max_cache_ttl_ms),
        lease_id: None,
        issued_at,
        metadata: credential_metadata(kind, target.scopes@, sa, subject),
    }
}

fn note(map: &mut NameMap<String>, name: &str, value: String)
    ensures
        text_map(final(map)@) == text_map(old(map)@).insert(name@, value@),
{
    let ghost before = map@;
    map.insert(name.to_owned(), value);
    assert(text_map(map@) =~= text_map(before).insert(name@, value@));
}

/// Makes the credential for a token that was minted at `issued_at`.
pub fn assemble(
    kind: TokenKind,
    grant: &Grant,
    identity: &PluginIdentity,
    issued: IssuedToken,
    issued_at: String,
) -> (r: IssuedCredential)
    ensures
        r@ == credential(
            kind,
            *grant.target,
            grant.service_account@,
            identity.subject_id,
            issued.token@,
            issued.ttl_seconds,
            issued_at@,
        ),
{
    let ttl_seconds: u64 = cap_ttl_seconds(issued.ttl_seconds, grant.target.max_cache_ttl_ms);
    let mut metadata: NameMap<String> = NameMap::new();
    assert(text_map(metadata@) =~= Map::<Seq<char>, Seq<char>>::empty());
    note(&mut metadata, "gcp.service_account", grant.service_account.clone());
    note(&mut metadata, "gcp.token_kind", kind_label(kind).to_owned());
    if grant.target.scopes.len() > 0 {
        note(&mut metadata, "gcp.scopes", join(&grant.target.scopes, " "));
    }
    if let Some(subject) = &identity.subject_id {
        note(&mut metadata, "gcp.caller_subject", sanitize_subject(subject.as_str()));
    }
    let mut parts: NameMap<String> = NameMap::new();
    assert(text_map(parts@) =~= Map::<Seq<char>, Seq<char>>::empty());
    note(&mut parts, kind_label(kind), issued.token.clone());
    IssuedCredential {
        value: Some(issued.token),
        parts,
        ttl_seconds,
        lease_id: None,
        issued_at,
        metadata,
    }
}

/// Whether two colons stand at position `k` of a path.
pub open spec fn separator_at(path: Seq<char>, k: int) -> bool {
    k + 1 < path.len() && path[k] == ':' && path[k + 1] == ':'
}

/// Whether `root` is what stands before the first `::` of a path, or the whole
/// path where there is none.
pub open spec fn is_path_root(path: Seq<char>, root: Seq<char>) -> bool {
    &&& root.is_prefix_of(path)
    &&& root.len() == path.len() || separator_at(path, root.len() as int)
    &&& forall|k: int| 0 <= k < root.len() ==> !#[trigger] separator_at(path, k)
}

/// Takes what stands before the first `::` of a path.
pub fn path_root(path: &str) -> (r: String)
    ensures
        is_path_root(path@, r@),
{
    let x: Vec<char> = chars_of(path);
    let mut i: usize = 0;
    while i < x.len() && !(i < x.len() - 1 && x[i] == ':' && x[i + 1] == ':')
        invariant
            i <= x.len(),
            forall|k: int| 0 <= k < i ==> !#[trigger] separator_at(x@, k),
        decreases x@.len() - i,
    {
        i = i + 1;
    }
    string_of(vstd::slice::slice_subrange(x.as_slice(), 0, i))
}

/// Whether a manifest is that of this plugin, in a version and built from a
/// module path.
pub open spec fn is_manifest(
    manifest: PluginManifest,
    version: Seq<char>,
    module: Seq<char>,
) -> bool {
    &&& manifest.id@ == PLUGIN_ID@
    &&& manifest.version@ == version
    &&& manifest.name@ == "GCP Service-Account Impersonation"@
    &&& manifest.plugin_class == PluginClass::CredentialIssuer
    &&& manifest.protocol_version@ == "1.0"@
    &&& manifest.license is None
    &&& manifest.required_capabilities@ == Seq::<String>::empty()
    &&& manifest.tags@ == Seq::<String>::empty()
    &&& manifest.provides@ == Seq::<String>::empty()
    &&& manifest.provides_schemes@ == Seq::<String>::empty()
    &&& is_path_root(module, manifest.module_path_prefix@)
    &&& manifest.backend_profile is None
}

/// What is said before the plugin refuses to load for a fault in its
/// configuration.
pub open spec fn load_refusal(e: ConfigErrorView) -> Seq<char> {
    "gcp-impersonation config parse failed: "@ + config_error_text(e)
        + ". A misconfigured credential issuer is a security hole; refusing to load."@
}

/// Says why the plugin refuses to load.
pub fn load_refusal_message(e: &ConfigError) -> (r: String)
    ensures
        r@ == load_refusal(e@),
{
    "gcp-impersonation config parse failed: ".to_owned().concat(e.message().as_str()).concat(
        ". A misconfigured credential issuer is a security hole; refusing to load.",
    )
}

/// The issuer, with its configuration.
#[derive(Debug)]
pub struct GcpImpersonationPlugin {
    pub manifest: PluginManifest,
    pub config: GcpImpersonationConfig,
    pub client: GcpClient,
}

/// Whether a plugin is the one for its configuration, in a version and built
/// from a module path.
pub open spec fn is_plugin(
    plugin: GcpImpersonationPlugin,
    version: Seq<char>,
    module: Seq<char>,
) -> bool {
    &&& is_manifest(plugin.manifest, version, module)
    &&& plugin.client.iam_endpoint@ == without_trailing_slashes(
        plugin.config.iam_credentials_endpoint@,
    )
    &&& plugin.client.refresh_buffer_ms == plugin.config.refresh_buffer_ms
    &&& plugin.client.base == plugin.config.base_auth
}

impl GcpImpersonationPlugin {
    /// Makes the issuer for a configuration as it was decoded. One that could
    /// not be decoded, or that has a fault, makes none.
    pub fn from_config_json(
        decoded: Result<ConfigDocument, String>,
        version: &str,
        module: &str,
    ) -> (r: Result<Self, ConfigError>)
        ensures
            decoded matches Err(text) ==> r matches Err(e) && e@ == ConfigErrorView::InvalidJson(
                text@,
            ),
            decoded matches Ok(document) ==> {
                &&& r matches Ok(plugin) ==> {
                    &&& completes(document, plugin.config)
                    &&& is_valid(plugin.config)
                    &&& is_plugin(plugin, version@, module@)
                }
                &&& r matches Err(e) ==> {
                    &&& exists|config: GcpImpersonationConfig| completes(document, config)
                    &&& forall|config: GcpImpersonationConfig| #[trigger]
                        completes(document, config) ==> !is_valid(config) && is_fault(config, e@)
                }
            },
    {
        match GcpImpersonationConfig::parse(decoded) {
            Ok(config) => Ok(Self::from_validated_config(config, version, module)),
            Err(e) => Err(e),
        }
    }

    /// Makes the issuer for a configuration that was checked.
    pub fn from_validated_config(
        config: GcpImpersonationConfig,
        version: &str,
        module: &str,
    ) -> (r: Self)
        ensures
            r.config == config,
            is_plugin(r, version@, module@),
    {
        let client: GcpClient = GcpClient::new(&config);
        GcpImpersonationPlugin {
            manifest: PluginManifest {
                id: PLUGIN_ID.to_owned(),
                version: version.to_owned(),
                name: "GCP Service-Account Impersonation".to_owned(),
                plugin_class: PluginClass::CredentialIssuer,
                protocol_version: "1.0".to_owned(),
                license: None,
                required_capabilities: Vec::new(),
                tags: Vec::new(),
                provides: Vec::new(),
                provides_schemes: Vec::new(),
                module_path_prefix: path_root(module),
                backend_profile: None,
            },
            config,
            client,
        }
    }

    /// How the plugin presents itself.
    pub fn manifest(&self) -> (r: &PluginManifest)
        ensures
            *r == self.manifest,
    {
        &self.manifest
    }

    /// Decides whether a caller may have a credential for a target, and for
    /// which service account.
    pub fn authorize<'a>(&'a self, identity: &PluginIdentity, target_name: &str) -> (r: Result<
        Grant<'a>,
        Refusal,
    >)
        ensures
            match grant(self.config, *identity, target_name@) {
                Ok(email) => {
                    &&& r matches Ok(found)
                    &&& found.service_account@ == email
                    &&& *found.target == self.config.targets@[target_name@]
                },
                Err(refusal) => r matches Err(found) && found@ == refusal,
            },
    {
        match self.config.targets.get(target_name) {
            Some(target) => match authorize_target(identity, target) {
                Ok(service_account) => Ok(Grant { target, service_account }),
                Err(refusal) => Err(refusal),
            },
            None => Err(Refusal::UnknownTarget { name: target_name.to_owned() }),
        }
    }

    /// The request to the IAM Credentials API that a grant takes.
    pub fn request(&self, grant: &Grant) -> (r: IamRequest)
        ensures
            r@ == token_request(
                self.client.iam_endpoint@,
                *grant.target,
                grant.service_account@,
            ),
    {
        let target: &TargetConfig = grant.target;
        let sa: &str = grant.service_account.as_str();
        match target.token_kind {
            TokenKind::AccessToken => self.client.generate_access_token(
                sa,
                &target.scopes,
                target.lifetime_seconds,
                &target.delegates,
            ),
            TokenKind::IdToken => {
                let audience: &str = match &target.audience {
                    Some(audience) => audience.as_str(),
                    None => "",
                };
                self.client.generate_id_token(
                    sa,
                    audience,
                    target.include_email,
                    &target.delegates,
                )
            },
        }
    }

    /// Gives a credential back. The tokens expire by themselves, so there is
    /// nothing to do.
    pub fn revoke(&self, lease_id: &str) -> (r: Result<(), CredentialError>)
        ensures
            r is Ok,
    {
        Ok(())
    }
}

/// Makes the credential of a grant out of the decoded reply to a request for an
/// access token, which came at `now`; `issued_at` is that time as a text. A reply
/// that could not be decoded comes as the text that says why.
pub fn finish_access_token_at(
    grant: &Grant,
    identity: &PluginIdentity,
    decoded: Result<AccessTokenReply, String>,
    now: i64,
    issued_at: String,
) -> (r: Result<IssuedCredential, CredentialError>)
    ensures
        match decoded {
            Err(error) => r matches Err(e) && e@ == undecodable("generateAccessToken"@, error@),
            Ok(reply) => match rfc3339_timestamp(reply.expire_time@) {
                Err(error) => r matches Err(e) && e@ == bad_expiry(reply.expire_time@, error),
                Ok(until) => r matches Ok(issued) && issued@ == credential(
                    TokenKind::AccessToken,
                    *grant.target,
                    grant.service_account@,
                    identity.subject_id,
                    reply.access_token@,
                    seconds_until(until, now),
                    issued_at@,
                ),
            },
        },
{
    match accept_access_token_at(decoded, now) {
        Ok(issued) => Ok(assemble(TokenKind::AccessToken, grant, identity, issued, issued_at)),
        Err(e) => Err(e),
    }
}

/// Makes the credential of a grant out of the decoded reply to a request for an
/// access token. How much is left of the token's life, and when it was issued,
/// is read off the machine's clock.
pub fn finish_access_token(
    grant: &Grant,
    identity: &PluginIdentity,
    decoded: Result<AccessTokenReply, String>,
) -> (r: Result<IssuedCredential, CredentialError>)
    ensures
        match decoded {
            Err(error) => r matches Err(e) && e@ == undecodable("generateAccessToken"@, error@),
            Ok(reply) => match rfc3339_timestamp(reply.expire_time@) {
                Err(error) => r matches Err(e) && e@ == bad_expiry(reply.expire_time@, error),
                Ok(until) => {
                    &&& r matches Ok(issued)
                    &&& is_utc_time(issued.issued_at@)
                    &&& exists|now: i64|
                        now >= 0 && issued@ == credential(
                            TokenKind::AccessToken,
                            *grant.target,
                            grant.service_account@,
                            identity.subject_id,
                            reply.access_token@,
                            #[trigger] seconds_until(until, now),
                            issued.issued_at@,
                        )
                },
            },
        },
{
    finish_access_token_at(grant, identity, decoded, unix_now(), now_rfc3339())
}

/// Makes the credential of a grant out of the decoded reply to a request for an
/// ID token, which came at `now`; `issued_at` is that time as a text. A reply
/// that could not be decoded comes as the text that says why.
pub fn finish_id_token_at(
    grant: &Grant,
    identity: &PluginIdentity,
    decoded: Result<String, String>,
    now: i64,
    issued_at: String,
) -> (r: Result<IssuedCredential, CredentialError>)
    ensures
        match decoded {
            Err(error) => r matches Err(e) && e@ == undecodable("generateIdToken"@, error@),
            Ok(token) => r matches Ok(issued) && issued@ == credential(
                TokenKind::IdToken,
                *grant.target,
                grant.service_account@,
                identity.subject_id,
                token@,
                match jwt_expiry(token@) {
                    Some(until) => seconds_until(until, now),
                    None => grant.target.id_token_assumed_ttl_seconds,
                },
                issued_at@,
            ),
        },
{
    match accept_id_token_at(decoded, grant.target.id_token_assumed_ttl_seconds, now) {
        Ok(issued) => Ok(assemble(TokenKind::IdToken, grant, identity, issued, issued_at)),
        Err(e) => Err(e),
    }
}

/// Makes the credential of a grant out of the decoded reply to a request for an
/// ID token. How much is left of the token's life, and when it was issued, is
/// read off the machine's clock.
pub fn finish_id_token(
    grant: &Grant,
    identity: &PluginIdentity,
    decoded: Result<String, String>,
) -> (r: Result<IssuedCredential, CredentialError>)
    ensures
        match decoded {
            Err(error) => r matches Err(e) && e@ == undecodable("generateIdToken"@, error@),
            Ok(token) => {
                &&& r matches Ok(issued)
                &&& is_utc_time(issued.issued_at@)
                &&& match jwt_expiry(token@) {
                    Some(until) => exists|now: i64|
                        now >= 0 && issued@ == credential(
                            TokenKind::IdToken,
                            *grant.target,
                            grant.service_account@,
                            identity.subject_id,
                            token@,
                            #[trigger] seconds_until(until, now),
                            issued.issued_at@,
                        ),
                    None => issued@ == credential(
                        TokenKind::IdToken,
                        *grant.target,
                        grant.service_account@,
                        identity.subject_id,
                        token@,
                        grant.target.id_token_assumed_ttl_seconds,
                        issued.issued_at@,
                    ),
                }
            },
        },
{
    finish_id_token_at(grant, identity, decoded, unix_now(), now_rfc3339())
}

/// The body of a reply to a request for a token, read as a reply for a token of
/// either kind. Where it cannot be read so, the text says why.
#[derive(Debug)]
pub struct DecodedReply {
    pub as_access_token: Result<AccessTokenReply, String>,
    pub as_id_token: Result<String, String>,
}

/// What comes of a reply at `now` for a target and a service account: the
/// credential, of the kind that the target mints, or a failure.
pub open spec fn issue_outcome(
    target: TargetConfig,
    sa: Seq<char>,
    subject: Option<String>,
    decoded: DecodedReply,
    now: i64,
    issued_at: Seq<char>,
) -> Result<IssuedCredentialView, CredentialErrorView> {
    let kind = target.token_kind;
    match kind {
        TokenKind::AccessToken => match decoded.as_access_token {
            Err(error) => Err(undecodable("generateAccessToken"@, error@)),
            Ok(reply) => match rfc3339_timestamp(reply.expire_time@) {
                Err(error) => Err(bad_expiry(reply.expire_time@, error)),
                Ok(until) => {
                    let ttl = seconds_until(until, now);
                    Ok(credential(kind, target, sa, subject, reply.access_token@, ttl, issued_at))
                },
            },
        },
        TokenKind::IdToken => match decoded.as_id_token {
            Err(error) => Err(undecodable("generateIdToken"@, error@)),
            Ok(token) => {
                let ttl = match jwt_expiry(token@) {
                    Some(until) => seconds_until(until, now),
                    None => target.id_token_assumed_ttl_seconds,
                };
                Ok(credential(kind, target, sa, subject, token@, ttl, issued_at))
            },
        },
    }
}

/// Whether a result is an outcome.
pub open spec fn is_outcome(
    r: Result<IssuedCredential, CredentialError>,
    outcome: Result<IssuedCredentialView, CredentialErrorView>,
) -> bool {
    match outcome {
        Ok(expected) => r matches Ok(issued) && issued@ == expected,
        Err(expected) => r matches Err(e) && e@ == expected,
    }
}

/// Whether a credential is of a kind: it says so, and its only part has the name
/// of the kind.
pub open spec fn is_of_kind(issued: IssuedCredentialView, kind: TokenKind) -> bool {
    &&& issued.metadata.dom().contains("gcp.token_kind"@)
    &&& issued.metadata["gcp.token_kind"@] == kind_name(kind)
    &&& forall|name: Seq<char>| #[trigger]
        issued.parts.dom().contains(name) <==> name == kind_name(kind)
}

/// The credential for a token says of which kind it is.
pub proof fn credentials_tell_their_kind(
    kind: TokenKind,
    target: TargetConfig,
    sa: Seq<char>,
    subject: Option<String>,
    token: Seq<char>,
    ttl_seconds: u64,
    issued_at: Seq<char>,
)
    ensures
        is_of_kind(credential(kind, target, sa, subject, token, ttl_seconds, issued_at), kind),
{
    reveal_strlit("gcp.token_kind");
    reveal_strlit("gcp.scopes");
    reveal_strlit("gcp.caller_subject");
    assert("gcp.token_kind"@.len() != "gcp.scopes"@.len());
    assert("gcp.token_kind"@.len() != "gcp.caller_subject"@.len());
}

/// A credential is of the kind that its target mints.
pub proof fn credentials_are_of_their_targets_kind(
    target: TargetConfig,
    sa: Seq<char>,
    subject: Option<String>,
    decoded: DecodedReply,
    now: i64,
    issued_at: Seq<char>,
)
    ensures
        issue_outcome(target, sa, subject, decoded, now, issued_at) matches Ok(issued)
            ==> is_of_kind(issued, target.token_kind),
{
    let kind = target.token_kind;
    match kind {
        TokenKind::AccessToken => {
            if let Ok(reply) = decoded.as_access_token {
                if let Ok(until) = rfc3339_timestamp(reply.expire_time@) {
                    let ttl = seconds_until(until, now);
                    let token = reply.access_token@;
                    credentials_tell_their_kind(kind, target, sa, subject, token, ttl, issued_at);
                }
            }
        },
        TokenKind::IdToken => {
            if let Ok(token) = decoded.as_id_token {
                let ttl = match jwt_expiry(token@) {
                    Some(until) => seconds_until(until, now),
                    None => target.id_token_assumed_ttl_seconds,
                };
                credentials_tell_their_kind(kind, target, sa, subject, token@, ttl, issued_at);
            }
        },
    }
}

/// Makes the credential of a grant out of the reply, which came at `now`;
/// `issued_at` is that time as a text. The target decides of which kind it is.
pub fn finish_at(
    grant: &Grant,
    identity: &PluginIdentity,
    decoded: DecodedReply,
    now: i64,
    issued_at: String,
) -> (r: Result<IssuedCredential, CredentialError>)
    ensures
        is_outcome(
            r,
            issue_outcome(
                *grant.target,
                grant.service_account@,
                identity.subject_id,
                decoded,
                now,
                issued_at@,
            ),
        ),
        r matches Ok(issued) ==> is_of_kind(issued@, grant.target.token_kind),
{
    proof {
        credentials_are_of_their_targets_kind(
            *grant.target,
            grant.service_account@,
            identity.subject_id,
            decoded,
            now,
            issued_at@,
        );
    }
    match grant.target.token_kind {
        TokenKind::AccessToken => finish_access_token_at(
            grant,
            identity,
            decoded.as_access_token,
            now,
            issued_at,
        ),
        TokenKind::IdToken => finish_id_token_at(
            grant,
            identity,
            decoded.as_id_token,
            now,
            issued_at,
        ),
    }
}

/// Makes the credential of a grant out of the reply. The target decides of which
/// kind it is. How much is left of the token's life, and when it was issued, is
/// read off the machine's clock.
pub fn finish(grant: &Grant, identity: &PluginIdentity, decoded: DecodedReply) -> (r: Result<
    IssuedCredential,
    CredentialError,
>)
    ensures
        exists|now: i64, issued_at: Seq<char>|
            now >= 0 && is_utc_time(issued_at) && is_outcome(
                r,
                #[trigger] issue_outcome(
                    *grant.target,
                    grant.service_account@,
                    identity.subject_id,
                    decoded,
                    now,
                    issued_at,
                ),
            ),
        r matches Ok(issued) ==> is_of_kind(issued@, grant.target.token_kind),
{
    finish_at(grant, identity, decoded, unix_now(), now_rfc3339())
}

} // verus!
