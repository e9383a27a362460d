//! Operator-supplied configuration: its shape, its defaults and its rules.

use crate::identity_mapping::{
    all_name_chars, is_delegate, is_sa_email, is_valid_delegate, is_valid_sa_email, name_chars,
};
use crate::name_map::{
    entries_map, in_name_order, last_entry_is_inserted, lemma_entry_is_mapped, name_before,
    name_order_is_total, named_at, Entry, NameMap,
};
use crate::text::{
    chars_of, copy_list, decimal, decimal_text, find_char, first_index, opt_text, same_text,
    string_of, strip_prefix,
};
use vstd::prelude::*;

verus! {

/// The configuration of the issuer.
#[derive(Debug, Clone)]
pub struct GcpImpersonationConfig {
    /// How the base token that calls the IAM Credentials API is obtained.
    pub base_auth: BaseAuth,
    /// Host of the IAM Credentials API.
    pub iam_credentials_endpoint: String,
    pub connect_timeout_ms: u64,
    pub operation_timeout_ms: u64,
    /// The cached base token is refreshed this long before it expires.
    pub refresh_buffer_ms: u64,
    /// The targets, by name; at least one.
    pub targets: NameMap<TargetConfig>,
}

/// Where the base token comes from.
#[derive(Debug, Clone, PartialEq, Eq)]
pub enum BaseAuth {
    /// The metadata server of GKE Workload Identity or GCE.
    MetadataServer {
        /// Metadata host.
        endpoint: String,
        /// Name of the service account on the metadata server.
        service_account: String,
    },
    /// A bearer token that the operator supplies.
    StaticAccessToken { access_token: String },
}

/// What kind of token a target mints.
#[derive(Debug, Clone, Copy, PartialEq, Eq, Structural)]
pub enum TokenKind {
    AccessToken,
    IdToken,
}

/// How the service account to impersonate is chosen.
#[derive(Debug, Clone, Copy, PartialEq, Eq, Structural)]
pub enum IdentityMapping {
    /// Always the configured `service_account`.
    Static,
    /// The subject of the caller.
    SubjectId,
    /// `service_account_template` with fields of the caller put in.
    Template,
    /// The first role of the caller.
    FromRole,
}

/// One target: whom to impersonate, and what to mint.
#[derive(Debug, Clone, PartialEq, Eq)]
pub struct TargetConfig {
    pub token_kind: TokenKind,
    /// Service-account email: the one to impersonate where the mapping is
    /// static, the fallback where it is not.
    pub service_account: String,
    pub identity_mapping: IdentityMapping,
    /// Template of the email; required where the mapping is `Template`.
    pub service_account_template: Option<String>,
    /// The only emails that the caller's identity may select, if set.
    pub allowed_service_accounts: Option<Vec<String>>,
    /// OAuth scopes of an access token.
    pub scopes: Vec<String>,
    /// Requested lifetime of an access token.
    pub lifetime_seconds: Option<u32>,
    /// Permits a lifetime of more than one hour.
    pub allow_extended_lifetime: bool,
    /// Audience of an ID token.
    pub audience: Option<String>,
    /// Whether an ID token carries the email.
    pub include_email: bool,
    /// Lifetime assumed of an ID token that does not tell its own.
    pub id_token_assumed_ttl_seconds: u64,
    /// Delegation chain, fixed by the operator.
    pub delegates: Vec<String>,
    /// Cap on the lifetime of an issued credential, in milliseconds.
    pub max_cache_ttl_ms: u64,
}

/// The longest lifetime of an access token, in seconds.
pub const MAX_LIFETIME: u32 = 3600;

/// The longest lifetime of an access token where extended ones are permitted.
pub const MAX_EXTENDED_LIFETIME: u32 = 43_200;

/// The shortest lifetime of an access token, in seconds.
pub const MIN_LIFETIME: u32 = 1;

/// The highest cap on the lifetime of an issued credential: one day.
pub const MAX_CACHE_TTL_MS: u64 = 86_400_000;

/// Why a configuration is refused.
#[derive(Debug, Clone, PartialEq, Eq)]
pub enum ConfigError {
    /// The document could not be decoded; the text says why.
    InvalidJson(String),
    InvalidEndpointScheme { field: &'static str },
    EmptyTargets,
    EmptyStaticToken,
    InvalidMetadataServiceAccount { sa: String },
    StaticTargetMissingSa { name: String },
    InvalidServiceAccount { name: String, sa: String },
    TemplateTargetMissingTemplate { name: String },
    InvalidAllowedServiceAccount { name: String, sa: String },
    AccessTokenMissingScopes { name: String },
    InvalidLifetime { name: String, secs: u32, max: u32 },
    IdTokenMissingAudience { name: String },
    IdTokenUnexpectedField { name: String },
    InvalidDelegate { name: String, d: String },
    InvalidMaxCacheTtl { name: String, ttl: u64 },
}

/// A [`ConfigError`] with its texts as sequences of characters.
pub enum ConfigErrorView {
    InvalidJson(Seq<char>),
    InvalidEndpointScheme { field: Seq<char> },
    EmptyTargets,
    EmptyStaticToken,
    InvalidMetadataServiceAccount { sa: Seq<char> },
    StaticTargetMissingSa { name: Seq<char> },
    InvalidServiceAccount { name: Seq<char>, sa: Seq<char> },
    TemplateTargetMissingTemplate { name: Seq<char> },
    InvalidAllowedServiceAccount { name: Seq<char>, sa: Seq<char> },
    AccessTokenMissingScopes { name: Seq<char> },
    InvalidLifetime { name: Seq<char>, secs: u32, max: u32 },
    IdTokenMissingAudience { name: Seq<char> },
    IdTokenUnexpectedField { name: Seq<char> },
    InvalidDelegate { name: Seq<char>, d: Seq<char> },
    InvalidMaxCacheTtl { name: Seq<char>, ttl: u64 },
}

impl View for ConfigError {
    type V = ConfigErrorView;

    open spec fn view(&self) -> ConfigErrorView {
        match self {
            ConfigError::InvalidJson(text) => ConfigErrorView::InvalidJson(text@),
            ConfigError::InvalidEndpointScheme { field } => {
                ConfigErrorView::InvalidEndpointScheme { field: field@ }
            },
            ConfigError::EmptyTargets => ConfigErrorView::EmptyTargets,
            ConfigError::EmptyStaticToken => ConfigErrorView::EmptyStaticToken,
            ConfigError::InvalidMetadataServiceAccount { sa } => {
                ConfigErrorView::InvalidMetadataServiceAccount { sa: sa@ }
            },
            ConfigError::StaticTargetMissingSa { name } => {
                ConfigErrorView::StaticTargetMissingSa { name: name@ }
            },
            ConfigError::InvalidServiceAccount { name, sa } => {
                ConfigErrorView::InvalidServiceAccount { name: name@, sa: sa@ }
            },
            ConfigError::TemplateTargetMissingTemplate { name } => {
                ConfigErrorView::TemplateTargetMissingTemplate { name: name@ }
            },
            ConfigError::InvalidAllowedServiceAccount { name, sa } => {
                ConfigErrorView::InvalidAllowedServiceAccount { name: name@, sa: sa@ }
            },
            ConfigError::AccessTokenMissingScopes { name } => {
                ConfigErrorView::AccessTokenMissingScopes { name: name@ }
            },
            ConfigError::InvalidLifetime { name, secs, max } => {
                ConfigErrorView::InvalidLifetime { name: name@, secs: *secs, max: *max }
            },
            ConfigError::IdTokenMissingAudience { name } => {
                ConfigErrorView::IdTokenMissingAudience { name: name@ }
            },
            ConfigError::IdTokenUnexpectedField { name } => {
                ConfigErrorView::IdTokenUnexpectedField { name: name@ }
            },
            ConfigError::InvalidDelegate { name, d } => {
                ConfigErrorView::InvalidDelegate { name: name@, d: d@ }
            },
            ConfigError::InvalidMaxCacheTtl { name, ttl } => {
                ConfigErrorView::InvalidMaxCacheTtl { name: name@, ttl: *ttl }
            },
        }
    }
}

/// What a refusal tells the operator.
pub open spec fn config_error_text(e: ConfigErrorView) -> Seq<char> {
    match e {
        ConfigErrorView::InvalidJson(text) => {
            "invalid credential.gcp-impersonation config JSON: "@ + text
        },
        ConfigErrorView::InvalidEndpointScheme { field } => {
            "credential.gcp-impersonation: "@ + field
                + " must be https:// (or http://localhost for tests)"@
        },
        ConfigErrorView::EmptyTargets => {
            "credential.gcp-impersonation: targets must be non-empty"@
        },
        ConfigErrorView::EmptyStaticToken => {
            "credential.gcp-impersonation: base_auth.static_access_token.access_token is empty"@
        },
        ConfigErrorView::InvalidMetadataServiceAccount { sa } => {
            "credential.gcp-impersonation: base_auth.metadata_server.service_account `"@ + sa
                + "` is not a valid SA alias or email"@
        },
        ConfigErrorView::StaticTargetMissingSa { name } => {
            target_text(name) + " has identity_mapping=static but service_account is empty"@
        },
        ConfigErrorView::InvalidServiceAccount { name, sa } => {
            target_text(name) + " service_account `"@ + sa
                + "` is not a valid service-account email"@
        },
        ConfigErrorView::TemplateTargetMissingTemplate { name } => {
            target_text(name)
                + " has identity_mapping=template but service_account_template is missing"@
        },
        ConfigErrorView::InvalidAllowedServiceAccount { name, sa } => {
            target_text(name) + " allowed_service_accounts entry `"@ + sa
                + "` is not a valid service-account email"@
        },
        ConfigErrorView::AccessTokenMissingScopes { name } => {
            target_text(name) + " token_kind=access_token requires non-empty scopes"@
        },
        ConfigErrorView::InvalidLifetime { name, secs, max } => {
            target_text(name) + " lifetime_seconds="@ + decimal(secs as nat)
                + " out of range (1..="@ + decimal(max as nat) + ")"@
        },
        ConfigErrorView::IdTokenMissingAudience { name } => {
            target_text(name) + " token_kind=id_token requires a non-empty audience"@
        },
        ConfigErrorView::IdTokenUnexpectedField { name } => {
            target_text(name) + " token_kind=id_token must not set scopes/lifetime_seconds"@
        },
        ConfigErrorView::InvalidDelegate { name, d } => {
            target_text(name) + " delegate `"@ + d + "` is not a valid SA email or resource name"@
        },
        ConfigErrorView::InvalidMaxCacheTtl { name, ttl } => {
            target_text(name) + " max_cache_ttl_ms="@ + decimal(ttl as nat)
                + "; must be 1..=86_400_000"@
        },
    }
}

/// How a refusal names a target.
pub open spec fn target_text(name: Seq<char>) -> Seq<char> {
    "credential.gcp-impersonation: target `"@ + name + "`"@
}

fn about_target(name: &str) -> (r: String)
    ensures
        r@ == target_text(name@),
{
    "credential.gcp-impersonation: target `".to_owned().concat(name).concat("`")
}

impl ConfigError {
    /// What the refusal tells the operator.
    pub fn message(&self) -> (r: String)
        ensures
            r@ == config_error_text(self@),
    {
        match self {
            ConfigError::InvalidJson(text) => {
                "invalid credential.gcp-impersonation config JSON: ".to_owned().concat(
                    text.as_str(),
                )
            },
            ConfigError::InvalidEndpointScheme { field } => {
                "credential.gcp-impersonation: ".to_owned().concat(field).concat(
                    " must be https:// (or http://localhost for tests)",
                )
            },
            ConfigError::EmptyTargets => {
                "credential.gcp-impersonation: targets must be non-empty".to_owned()
            },
            ConfigError::EmptyStaticToken => {
                let text: &str =
                    "credential.gcp-impersonation: base_auth.static_access_token.access_token is empty";
                text.to_owned()
            },
            ConfigError::InvalidMetadataServiceAccount { sa } => {
                let text: &str =
                    "credential.gcp-impersonation: base_auth.metadata_server.service_account `";
                text.to_owned().concat(sa.as_str()).concat("` is not a valid SA alias or email")
            },
            ConfigError::StaticTargetMissingSa { name } => {
                about_target(name.as_str()).concat(
                    " has identity_mapping=static but service_account is empty",
                )
            },
            ConfigError::InvalidServiceAccount { name, sa } => {
                about_target(name.as_str()).concat(" service_account `").concat(
                    sa.as_str(),
                ).concat("` is not a valid service-account email")
            },
            ConfigError::TemplateTargetMissingTemplate { name } => {
                about_target(name.as_str()).concat(
                    " has identity_mapping=template but service_account_template is missing",
                )
            },
            ConfigError::InvalidAllowedServiceAccount { name, sa } => {
                about_target(name.as_str()).concat(" allowed_service_accounts entry `").concat(
                    sa.as_str(),
                ).concat("` is not a valid service-account email")
            },
            ConfigError::AccessTokenMissingScopes { name } => {
                about_target(name.as_str()).concat(
                    " token_kind=access_token requires non-empty scopes",
                )
            },
            ConfigError::InvalidLifetime { name, secs, max } => {
                about_target(name.as_str()).concat(" lifetime_seconds=").concat(
                    decimal_text(*secs as u64).as_str(),
                ).concat(" out of range (1..=").concat(decimal_text(*max as u64).as_str()).concat(
                    ")",
                )
            },
            ConfigError::IdTokenMissingAudience { name } => {
                about_target(name.as_str()).concat(
                    " token_kind=id_token requires a non-empty audience",
                )
            },
            ConfigError::IdTokenUnexpectedField { name } => {
                about_target(name.as_str()).concat(
                    " token_kind=id_token must not set scopes/lifetime_seconds",
                )
            },
            ConfigError::InvalidDelegate { name, d } => {
                about_target(name.as_str()).concat(" delegate `").concat(d.as_str()).concat(
                    "` is not a valid SA email or resource name",
                )
            },
            ConfigError::InvalidMaxCacheTtl { name, ttl } => {
                about_target(name.as_str()).concat(" max_cache_ttl_ms=").concat(
                    decimal_text(*ttl).as_str(),
                ).concat("; must be 1..=86_400_000")
            },
        }
    }
}

/// Whether a character ends the authority of a URL. An HTTP client takes a
/// backslash for a slash.
pub open spec fn ends_authority(c: char) -> bool {
    c == '/' || c == '?' || c == '#' || c == '\\'
}

/// The authority in what follows the scheme of a URL: all up to the first
/// character that ends it.
pub open spec fn url_authority(rest: Seq<char>) -> Seq<char>
    decreases rest.len(),
{
    if rest.len() == 0 || ends_authority(rest[0]) {
        Seq::empty()
    } else {
        seq![rest[0]] + url_authority(rest.skip(1))
    }
}

/// The authority is the longest beginning in which no character ends it.
pub proof fn url_authority_is_longest(rest: Seq<char>)
    ensures
        url_authority(rest).len() <= rest.len(),
        url_authority(rest) == rest.take(url_authority(rest).len() as int),
        forall|i: int|
            0 <= i < url_authority(rest).len() ==> !ends_authority(#[trigger] rest[i]),
        url_authority(rest).len() < rest.len() ==> ends_authority(
            rest[url_authority(rest).len() as int],
        ),
    decreases rest.len(),
{
    let authority = url_authority(rest);
    if rest.len() > 0 && !ends_authority(rest[0]) {
        let tail = rest.skip(1);
        url_authority_is_longest(tail);
        assert(authority =~= rest.take(authority.len() as int)) by {
            assert forall|i: int| 0 < i < authority.len() implies authority[i] == rest[i] by {
                assert(authority[i] == url_authority(tail)[i - 1]);
                assert(tail.take(url_authority(tail).len() as int)[i - 1] == rest[i]);
            }
        }
        assert forall|i: int| 0 <= i < authority.len() implies !ends_authority(
            #[trigger] rest[i],
        ) by {
            if i > 0 {
                assert(!ends_authority(tail[i - 1]));
            }
        }
    } else {
        assert(authority =~= rest.take(0));
    }
}

/// What stands before the first slash or colon in what follows the scheme of a
/// URL: its host, as written, where the authority holds no user.
pub open spec fn host_text(rest: Seq<char>) -> Seq<char> {
    let slash = first_index(rest, '/');
    let colon = first_index(rest, ':');
    rest.take(if slash <= colon { slash as int } else { colon as int })
}

/// Whether the authority in what follows the scheme of a URL holds a user, which
/// an at sign parts from the host.
pub open spec fn has_user(rest: Seq<char>) -> bool {
    url_authority(rest).contains('@')
}

/// What stands behind the last `c` in `s`, or all of `s` if there is none.
pub open spec fn behind_last(s: Seq<char>, c: char) -> Seq<char>
    decreases s.len(),
{
    if s.len() == 0 || s.last() == c {
        Seq::empty()
    } else {
        behind_last(s.drop_last(), c).push(s.last())
    }
}

/// What stands behind the last `c` is the longest ending without it.
pub proof fn behind_last_is_longest(s: Seq<char>, c: char)
    ensures
        behind_last(s, c).len() <= s.len(),
        behind_last(s, c) == s.skip(s.len() - behind_last(s, c).len()),
        !behind_last(s, c).contains(c),
        behind_last(s, c).len() < s.len() ==> s[s.len() - behind_last(s, c).len() - 1] == c,
    decreases s.len(),
{
    let behind = behind_last(s, c);
    if s.len() > 0 && s.last() != c {
        let short = s.drop_last();
        behind_last_is_longest(short, c);
        assert(behind =~= s.skip(s.len() - behind.len())) by {
            assert forall|i: int| 0 <= i < behind.len() implies behind[i] == s[s.len()
                - behind.len() + i] by {
                if i < behind.len() - 1 {
                    assert(behind[i] == behind_last(short, c)[i]);
                }
            }
        }
        if behind.contains(c) {
            let i = choose|i: int| 0 <= i < behind.len() && behind[i] == c;
            assert(behind_last(short, c)[i] == c);
        }
    } else {
        assert(behind =~= s.skip(s.len() as int));
    }
}

/// The host behind the user in what follows the scheme of a URL: in the
/// authority, what stands behind the last at sign and before the next colon.
pub open spec fn host_behind_user(rest: Seq<char>) -> Seq<char> {
    let server = behind_last(url_authority(rest), '@');
    server.take(first_index(server, ':') as int)
}

/// The host that a URL calls, given what follows its scheme.
pub open spec fn called_host(rest: Seq<char>) -> Seq<char> {
    if has_user(rest) {
        host_behind_user(rest)
    } else {
        host_text(rest)
    }
}

/// The names of this machine.
pub open spec fn is_this_machine(host: Seq<char>) -> bool {
    host == "localhost"@ || host == "127.0.0.1"@
}

/// The hosts that may be called without TLS.
pub open spec fn is_plain_http_host(host: Seq<char>) -> bool {
    is_this_machine(host) || host == "metadata.google.internal"@
}

/// An endpoint that may be called: `https` to anywhere, `http` to this machine
/// or to the metadata server. A user before the host cannot hide another host.
pub open spec fn is_endpoint(url: Seq<char>) -> bool {
    let rest = url.skip("http://"@.len() as int);
    if "https://"@.is_prefix_of(url) {
        url.len() > "https://"@.len()
    } else {
        &&& "http://"@.is_prefix_of(url)
        &&& is_plain_http_host(host_text(rest))
        &&& is_plain_http_host(called_host(rest))
    }
}

/// An endpoint at which the IAM Credentials API may be called: `https` to
/// anywhere, `http` to this machine.
pub open spec fn is_api_endpoint(url: Seq<char>) -> bool {
    is_endpoint(url) && ("https://"@.is_prefix_of(url) || is_this_machine(
        called_host(url.skip("http://"@.len() as int)),
    ))
}

/// Cuts out the host as written.
fn written_host(rest: &str) -> (r: String)
    ensures
        r@ == host_text(rest@),
{
    let x: Vec<char> = chars_of(rest);
    let slash: usize = find_char(x.as_slice(), '/');
    let colon: usize = find_char(x.as_slice(), ':');
    let end: usize = if slash <= colon { slash } else { colon };
    let host: &[char] = vstd::slice::slice_subrange(x.as_slice(), 0, end);
    assert(host@ =~= host_text(rest@));
    string_of(host)
}

/// Finds the host that is called.
fn host_of(rest: &str) -> (r: String)
    ensures
        r@ == called_host(rest@),
{
    let x: Vec<char> = chars_of(rest);
    let mut end: usize = 0;
    while end < x.len() && x[end] != '/' && x[end] != '?' && x[end] != '#' && x[end] != '\\'
        invariant
            end <= x@.len(),
            forall|i: int| 0 <= i < end ==> !ends_authority(#[trigger] x@[i]),
        decreases x@.len() - end,
    {
        end = end + 1;
    }
    let authority: &[char] = vstd::slice::slice_subrange(x.as_slice(), 0, end);
    proof {
        url_authority_is_longest(rest@);
        let n = url_authority(rest@).len();
        if n < end {
            assert(ends_authority(x@[n as int]));
        } else if end < n {
            assert(!ends_authority(x@[end as int]));
        }
        assert(authority@ =~= url_authority(rest@));
    }
    let mut start: usize = end;
    while start > 0 && authority[start - 1] != '@'
        invariant
            start <= authority@.len() == end,
            forall|i: int| start <= i < end ==> authority@[i] != '@',
        decreases start,
    {
        start = start - 1;
    }
    if start == 0 {
        assert(!has_user(rest@));
        return written_host(rest);
    }
    let server: &[char] = vstd::slice::slice_subrange(authority, start, end);
    proof {
        assert(authority@[start - 1] == '@');
        assert(has_user(rest@));
        let behind = behind_last(authority@, '@');
        behind_last_is_longest(authority@, '@');
        let from = end - behind.len();
        if start < from {
            assert(authority@[from - 1] == '@');
        } else if from < start {
            assert(behind[start - 1 - from] == '@');
        }
        assert(server@ =~= behind);
    }
    let colon: usize = find_char(server, ':');
    let host: &[char] = vstd::slice::slice_subrange(server, 0, colon);
    assert(host@ =~= host_behind_user(rest@));
    string_of(host)
}

fn names_this_machine(host: &str) -> (r: bool)
    ensures
        r == is_this_machine(host@),
{
    same_text(host, "localhost") || same_text(host, "127.0.0.1")
}

fn names_plain_http_host(host: &str) -> (r: bool)
    ensures
        r == is_plain_http_host(host@),
{
    names_this_machine(host) || same_text(host, "metadata.google.internal")
}

/// Whether an endpoint may be called. Plain `http` would send the bearer token
/// in clear text, so it is for this machine and the metadata server alone.
pub fn is_allowed_endpoint(url: &str) -> (r: bool)
    ensures
        r == is_endpoint(url@),
{
    if let Some(rest) = strip_prefix(url, "https://") {
        return !rest.as_str().is_empty();
    }
    if let Some(rest) = strip_prefix(url, "http://") {
        return names_plain_http_host(written_host(rest.as_str()).as_str())
            && names_plain_http_host(host_of(rest.as_str()).as_str());
    }
    false
}

/// Whether the IAM Credentials API may be called at an endpoint. Plain `http` is
/// for this machine alone, as in tests.
pub fn is_allowed_api_endpoint(url: &str) -> (r: bool)
    ensures
        r == is_api_endpoint(url@),
{
    if let Some(rest) = strip_prefix(url, "https://") {
        return !rest.as_str().is_empty();
    }
    if let Some(rest) = strip_prefix(url, "http://") {
        return names_plain_http_host(written_host(rest.as_str()).as_str())
            && names_this_machine(host_of(rest.as_str()).as_str());
    }
    false
}

/// The name of an account on the metadata server: an alias or an email. It
/// stands in the path of the metadata URL.
pub open spec fn is_metadata_account(sa: Seq<char>) -> bool {
    (sa.len() > 0 && all_name_chars(sa)) || is_sa_email(sa)
}

/// The first fault in how the base token is obtained.
pub open spec fn base_auth_error(base_auth: BaseAuth) -> Option<ConfigErrorView> {
    match base_auth {
        BaseAuth::MetadataServer { endpoint, service_account } => if !is_endpoint(endpoint@) {
            Some(
                ConfigErrorView::InvalidEndpointScheme {
                    field: "base_auth.metadata_server.endpoint"@,
                },
            )
        } else if !is_metadata_account(service_account@) {
            Some(ConfigErrorView::InvalidMetadataServiceAccount { sa: service_account@ })
        } else {
            None
        },
        BaseAuth::StaticAccessToken { access_token } => if access_token@.len() == 0 {
            Some(ConfigErrorView::EmptyStaticToken)
        } else {
            None
        },
    }
}

/// Whether an optional text is absent or empty.
pub open spec fn is_blank(text: Option<String>) -> bool {
    match text {
        Some(text) => text@.len() == 0,
        None => true,
    }
}

/// The first fault in how a target chooses its service account.
pub open spec fn mapping_error(name: Seq<char>, target: TargetConfig) -> Option<ConfigErrorView> {
    let sa = target.service_account@;
    match target.identity_mapping {
        IdentityMapping::Static => if sa.len() == 0 {
            Some(ConfigErrorView::StaticTargetMissingSa { name })
        } else if !is_sa_email(sa) {
            Some(ConfigErrorView::InvalidServiceAccount { name, sa })
        } else {
            None
        },
        IdentityMapping::Template => if is_blank(target.service_account_template) {
            Some(ConfigErrorView::TemplateTargetMissingTemplate { name })
        } else {
            None
        },
        IdentityMapping::SubjectId | IdentityMapping::FromRole => if sa.len() > 0 && !is_sa_email(
            sa,
        ) {
            Some(ConfigErrorView::InvalidServiceAccount { name, sa })
        } else {
            None
        },
    }
}

/// The first of the texts that is not the email of a service account.
pub open spec fn first_non_email(list: Seq<String>) -> Option<Seq<char>>
    decreases list.len(),
{
    if list.len() == 0 {
        None
    } else if first_non_email(list.drop_last()) is Some {
        first_non_email(list.drop_last())
    } else if !is_sa_email(list.last()@) {
        Some(list.last()@)
    } else {
        None
    }
}

/// The first of the texts that is not a delegate.
pub open spec fn first_non_delegate(list: Seq<String>) -> Option<Seq<char>>
    decreases list.len(),
{
    if list.len() == 0 {
        None
    } else if first_non_delegate(list.drop_last()) is Some {
        first_non_delegate(list.drop_last())
    } else if !is_delegate(list.last()@) {
        Some(list.last()@)
    } else {
        None
    }
}

/// The first fault in a target's allowlist.
pub open spec fn allowlist_error(name: Seq<char>, target: TargetConfig) -> Option<ConfigErrorView> {
    match target.allowed_service_accounts {
        Some(allowed) => match first_non_email(allowed@) {
            Some(sa) => Some(ConfigErrorView::InvalidAllowedServiceAccount { name, sa }),
            None => None,
        },
        None => None,
    }
}

/// The longest lifetime that a target may request.
pub open spec fn lifetime_limit(target: TargetConfig) -> u32 {
    if target.allow_extended_lifetime {
        MAX_EXTENDED_LIFETIME
    } else {
        MAX_LIFETIME
    }
}

/// The first fault in what a target says of the token that it mints.
pub open spec fn token_error(name: Seq<char>, target: TargetConfig) -> Option<ConfigErrorView> {
    match target.token_kind {
        TokenKind::AccessToken => if target.scopes@.len() == 0 {
            Some(ConfigErrorView::AccessTokenMissingScopes { name })
        } else {
            match target.lifetime_seconds {
                Some(secs) if !(MIN_LIFETIME <= secs <= lifetime_limit(target)) => Some(
                    ConfigErrorView::InvalidLifetime { name, secs, max: lifetime_limit(target) },
                ),
                _ => None,
            }
        },
        TokenKind::IdToken => if is_blank(target.audience) {
            Some(ConfigErrorView::IdTokenMissingAudience { name })
        } else if target.scopes@.len() > 0 || target.lifetime_seconds is Some {
            Some(ConfigErrorView::IdTokenUnexpectedField { name })
        } else {
            None
        },
    }
}

/// The first fault in a target's delegation chain.
pub open spec fn delegates_error(name: Seq<char>, target: TargetConfig) -> Option<ConfigErrorView> {
    match first_non_delegate(target.delegates@) {
        Some(d) => Some(ConfigErrorView::InvalidDelegate { name, d }),
        None => None,
    }
}

/// The fault in a target's cap on the lifetime of a credential.
pub open spec fn cache_ttl_error(name: Seq<char>, target: TargetConfig) -> Option<ConfigErrorView> {
    if 1 <= target.max_cache_ttl_ms <= MAX_CACHE_TTL_MS {
        None
    } else {
        Some(ConfigErrorView::InvalidMaxCacheTtl { name, ttl: target.max_cache_ttl_ms })
    }
}

/// The first fault in a target, in the order in which its parts are checked.
pub open spec fn target_error(name: Seq<char>, target: TargetConfig) -> Option<ConfigErrorView> {
    if mapping_error(name, target) is Some {
        mapping_error(name, target)
    } else if allowlist_error(name, target) is Some {
        allowlist_error(name, target)
    } else if token_error(name, target) is Some {
        token_error(name, target)
    } else if delegates_error(name, target) is Some {
        delegates_error(name, target)
    } else {
        cache_ttl_error(name, target)
    }
}

/// The first fault in a configuration outside its targets.
pub open spec fn base_error(config: GcpImpersonationConfig) -> Option<ConfigErrorView> {
    if !is_api_endpoint(config.iam_credentials_endpoint@) {
        Some(ConfigErrorView::InvalidEndpointScheme { field: "iam_credentials_endpoint"@ })
    } else if base_auth_error(config.base_auth) is Some {
        base_auth_error(config.base_auth)
    } else if config.targets@ == Map::<Seq<char>, TargetConfig>::empty() {
        Some(ConfigErrorView::EmptyTargets)
    } else {
        None
    }
}

/// Whether no target has a fault.
pub open spec fn targets_valid(targets: Map<Seq<char>, TargetConfig>) -> bool {
    forall|name: Seq<char>| #[trigger]
        targets.dom().contains(name) ==> target_error(name, targets[name]) is None
}

/// Whether a configuration has no fault.
pub open spec fn is_valid(config: GcpImpersonationConfig) -> bool {
    base_error(config) is None && targets_valid(config.targets@)
}

/// Whether `name` is the first target, in the order of the names, that has a
/// fault.
pub open spec fn is_first_faulty(
    targets: Map<Seq<char>, TargetConfig>,
    name: Seq<char>,
) -> bool {
    &&& targets.dom().contains(name)
    &&& target_error(name, targets[name]) is Some
    &&& forall|other: Seq<char>| #[trigger]
        targets.dom().contains(other) && name_before(other, name) ==> target_error(
            other,
            targets[other],
        ) is None
}

/// Whether `e` is the first fault in a configuration: one outside the targets,
/// or else that of the first target with a fault.
pub open spec fn is_fault(config: GcpImpersonationConfig, e: ConfigErrorView) -> bool {
    match base_error(config) {
        Some(found) => e == found,
        None => exists|name: Seq<char>| #[trigger]
            is_first_faulty(config.targets@, name) && target_error(name, config.targets@[name])
                == Some(e),
    }
}

fn non_email(list: &Vec<String>) -> (r: Option<String>)
    ensures
        opt_text(r) == first_non_email(list@),
{
    let mut i: usize = 0;
    while i < list.len()
        invariant
            i <= list@.len(),
            first_non_email(list@.take(i as int)) is None,
        decreases list@.len() - i,
    {
        assert(list@.take(i + 1).drop_last() =~= list@.take(i as int));
        if !is_valid_sa_email(list[i].as_str()) {
            proof {
                lemma_first_non_email_stays(list@, i + 1);
            }
            return Some(list[i].clone());
        }
        i = i + 1;
    }
    assert(list@.take(i as int) =~= list@);
    None
}

proof fn lemma_first_non_email_stays(list: Seq<String>, i: int)
    requires
        0 <= i <= list.len(),
        first_non_email(list.take(i)) is Some,
    ensures
        first_non_email(list) == first_non_email(list.take(i)),
    decreases list.len() - i,
{
    if i < list.len() {
        assert(list.take(i + 1).drop_last() =~= list.take(i));
        lemma_first_non_email_stays(list, i + 1);
    } else {
        assert(list.take(i) =~= list);
    }
}

fn non_delegate(list: &Vec<String>) -> (r: Option<String>)
    ensures
        opt_text(r) == first_non_delegate(list@),
{
    let mut i: usize = 0;
    while i < list.len()
        invariant
            i <= list@.len(),
            first_non_delegate(list@.take(i as int)) is None,
        decreases list@.len() - i,
    {
        assert(list@.take(i + 1).drop_last() =~= list@.take(i as int));
        if !is_valid_delegate(list[i].as_str()) {
            proof {
                lemma_first_non_delegate_stays(list@, i + 1);
            }
            return Some(list[i].clone());
        }
        i = i + 1;
    }
    assert(list@.take(i as int) =~= list@);
    None
}

proof fn lemma_first_non_delegate_stays(list: Seq<String>, i: int)
    requires
        0 <= i <= list.len(),
        first_non_delegate(list.take(i)) is Some,
    ensures
        first_non_delegate(list) == first_non_delegate(list.take(i)),
    decreases list.len() - i,
{
    if i < list.len() {
        assert(list.take(i + 1).drop_last() =~= list.take(i));
        lemma_first_non_delegate_stays(list, i + 1);
    } else {
        assert(list.take(i) =~= list);
    }
}

fn blank(text: &Option<String>) -> (r: bool)
    ensures
        r == is_blank(*text),
{
    match text {
        Some(text) => text.as_str().is_empty(),
        None => true,
    }
}

impl GcpImpersonationConfig {
    /// Checks one target.
    pub fn validate_target(&self, name: &str, target: &TargetConfig) -> (r: Result<
        (),
        ConfigError,
    >)
        ensures
            r is Ok <==> target_error(name@, *target) is None,
            r matches Err(e) ==> target_error(name@, *target) == Some(e@),
    {
        let sa: &str = target.service_account.as_str();
        match target.identity_mapping {
            IdentityMapping::Static => {
                if sa.is_empty() {
                    return Err(ConfigError::StaticTargetMissingSa { name: name.to_owned() });
                }
                if !is_valid_sa_email(sa) {
                    return Err(
                        ConfigError::InvalidServiceAccount {
                            name: name.to_owned(),
                            sa: target.service_account.clone(),
                        },
                    );
                }
            },
            IdentityMapping::Template => {
                if blank(&target.service_account_template) {
                    return Err(
                        ConfigError::TemplateTargetMissingTemplate { name: name.to_owned() },
                    );
                }
            },
            IdentityMapping::SubjectId | IdentityMapping::FromRole => {
                if !sa.is_empty() && !is_valid_sa_email(sa) {
                    return Err(
                        ConfigError::InvalidServiceAccount {
                            name: name.to_owned(),
                            sa: target.service_account.clone(),
                        },
                    );
                }
            },
        }
        if let Some(allowed) = &target.allowed_service_accounts {
            if let Some(sa) = non_email(allowed) {
                return Err(ConfigError::InvalidAllowedServiceAccount { name: name.to_owned(), sa });
            }
        }
        match target.token_kind {
            TokenKind::AccessToken => {
                if target.scopes.len() == 0 {
                    return Err(ConfigError::AccessTokenMissingScopes { name: name.to_owned() });
                }
                if let Some(secs) = target.lifetime_seconds {
                    let max: u32 = if target.allow_extended_lifetime {
                        MAX_EXTENDED_LIFETIME
                    } else {
                        MAX_LIFETIME
                    };
                    if secs < MIN_LIFETIME || secs > max {
                        return Err(
                            ConfigError::InvalidLifetime { name: name.to_owned(), secs, max },
                        );
                    }
                }
            },
            TokenKind::IdToken => {
                if blank(&target.audience) {
                    return Err(ConfigError::IdTokenMissingAudience { name: name.to_owned() });
                }
                if target.scopes.len() > 0 || target.lifetime_seconds.is_some() {
                    return Err(ConfigError::IdTokenUnexpectedField { name: name.to_owned() });
                }
            },
        }
        if let Some(d) = non_delegate(&target.delegates) {
            return Err(ConfigError::InvalidDelegate { name: name.to_owned(), d });
        }
        if target.max_cache_ttl_ms == 0 || target.max_cache_ttl_ms > MAX_CACHE_TTL_MS {
            return Err(
                ConfigError::InvalidMaxCacheTtl {
                    name: name.to_owned(),
                    ttl: target.max_cache_ttl_ms,
                },
            );
        }
        Ok(())
    }

    /// Checks the configuration. The targets are checked in the order of their
    /// names, and the first fault found is reported.
    pub fn validate(&self) -> (r: Result<(), ConfigError>)
        ensures
            r is Ok <==> is_valid(*self),
            r matches Err(e) ==> is_fault(*self, e@),
    {
        if !is_allowed_api_endpoint(self.iam_credentials_endpoint.as_str()) {
            return Err(ConfigError::InvalidEndpointScheme { field: "iam_credentials_endpoint" });
        }
        match &self.base_auth {
            BaseAuth::MetadataServer { endpoint, service_account } => {
                if !is_allowed_endpoint(endpoint.as_str()) {
                    return Err(
                        ConfigError::InvalidEndpointScheme {
                            field: "base_auth.metadata_server.endpoint",
                        },
                    );
                }
                let alias: Vec<char> = chars_of(service_account.as_str());
                let alias_ok: bool = alias.len() > 0 && name_chars(alias.as_slice());
                if !alias_ok && !is_valid_sa_email(service_account.as_str()) {
                    return Err(
                        ConfigError::InvalidMetadataServiceAccount { sa: service_account.clone() },
                    );
                }
            },
            BaseAuth::StaticAccessToken { access_token } => {
                if access_token.as_str().is_empty() {
                    return Err(ConfigError::EmptyStaticToken);
                }
            },
        }
        if self.targets.is_empty() {
            return Err(ConfigError::EmptyTargets);
        }
        assert(base_error(*self) is None);
        let entries: &Vec<Entry<TargetConfig>> = self.targets.entries();
        let mut i: usize = 0;
        while i < entries.len()
            invariant
                i <= entries@.len(),
                in_name_order(entries@),
                entries_map(entries@) == self.targets@,
                base_error(*self) is None,
                forall|j: int|
                    0 <= j < i ==> target_error(
                        (#[trigger] entries@[j]).name@,
                        entries@[j].value,
                    ) is None,
            decreases entries@.len() - i,
        {
            proof {
                lemma_entry_is_mapped(entries@, i as int);
            }
            match self.validate_target(entries[i].name.as_str(), &entries[i].value) {
                Ok(_) => {},
                Err(e) => {
                    proof {
                        let name = entries@[i as int].name@;
                        assert forall|other: Seq<char>| #[trigger]
                            self.targets@.dom().contains(other) && name_before(
                                other,
                                name,
                            ) implies target_error(other, self.targets@[other]) is None by {
                            let j = choose|j: int| named_at(entries@, other, j);
                            lemma_entry_is_mapped(entries@, j);
                            name_order_is_total(other, name);
                            if j > i {
                                assert(name_before(
                                    entries@[i as int].name@,
                                    entries@[j].name@,
                                ));
                            }
                        }
                        assert(is_first_faulty(self.targets@, name));
                    }
                    return Err(e);
                },
            }
            i = i + 1;
        }
        proof {
            assert forall|name: Seq<char>| #[trigger]
                self.targets@.dom().contains(name) implies target_error(
                name,
                self.targets@[name],
            ) is None by {
                let j = choose|j: int| named_at(entries@, name, j);
                lemma_entry_is_mapped(entries@, j);
            }
        }
        Ok(())
    }
}

/// Host of the IAM Credentials API where the document names none.
pub fn default_iam_endpoint() -> (r: String)
    ensures
        r@ == "https://iamcredentials.googleapis.com"@,
{
    "https://iamcredentials.googleapis.com".to_owned()
}

/// Metadata host where the document names none.
pub fn default_metadata_endpoint() -> (r: String)
    ensures
        r@ == "http://metadata.google.internal"@,
{
    "http://metadata.google.internal".to_owned()
}

/// Account on the metadata server where the document names none.
pub fn default_metadata_sa() -> (r: String)
    ensures
        r@ == "default"@,
{
    "default".to_owned()
}

pub fn default_connect_timeout_ms() -> (r: u64)
    ensures
        r == 5000,
{
    5000
}

pub fn default_operation_timeout_ms() -> (r: u64)
    ensures
        r == 15_000,
{
    15_000
}

pub fn default_refresh_buffer_ms() -> (r: u64)
    ensures
        r == 60_000,
{
    60_000
}

pub fn default_true() -> (r: bool)
    ensures
        r,
{
    true
}

/// Lifetime assumed of an ID token: five minutes under the hour.
pub fn default_id_token_ttl() -> (r: u64)
    ensures
        r == 3300,
{
    3300
}

pub fn default_max_cache_ttl_ms() -> (r: u64)
    ensures
        r == 3_600_000,
{
    3_600_000
}

impl Default for BaseAuth {
    fn default() -> (r: Self)
        ensures
            is_default_base_auth(r),
    {
        BaseAuth::MetadataServer {
            endpoint: default_metadata_endpoint(),
            service_account: default_metadata_sa(),
        }
    }
}

impl Default for TokenKind {
    fn default() -> (r: Self)
        ensures
            r == TokenKind::AccessToken,
    {
        TokenKind::AccessToken
    }
}

impl Default for IdentityMapping {
    fn default() -> (r: Self)
        ensures
            r == IdentityMapping::Static,
    {
        IdentityMapping::Static
    }
}

/// Whether `base_auth` is the metadata server at its default host, under the
/// default account.
pub open spec fn is_default_base_auth(base_auth: BaseAuth) -> bool {
    &&& base_auth matches BaseAuth::MetadataServer { endpoint, service_account }
    &&& endpoint@ == "http://metadata.google.internal"@
    &&& service_account@ == "default"@
}

/// A configuration as the operator wrote it: what was left out is `None`.
#[derive(Debug, Clone)]
pub struct ConfigDocument {
    pub base_auth: Option<BaseAuthDocument>,
    pub iam_credentials_endpoint: Option<String>,
    pub connect_timeout_ms: Option<u64>,
    pub operation_timeout_ms: Option<u64>,
    pub refresh_buffer_ms: Option<u64>,
    /// The targets in the order in which they were written. Of two with the
    /// same name the later one holds.
    pub targets: Vec<Entry<TargetDocument>>,
}

/// The source of the base token as the operator wrote it.
#[derive(Debug, Clone)]
pub enum BaseAuthDocument {
    MetadataServer { endpoint: Option<String>, service_account: Option<String> },
    StaticAccessToken { access_token: String },
}

/// A target as the operator wrote it: what was left out is `None`.
#[derive(Debug, Clone)]
pub struct TargetDocument {
    pub token_kind: Option<TokenKind>,
    pub service_account: Option<String>,
    pub identity_mapping: Option<IdentityMapping>,
    pub service_account_template: Option<String>,
    pub allowed_service_accounts: Option<Vec<String>>,
    pub scopes: Option<Vec<String>>,
    pub lifetime_seconds: Option<u32>,
    pub allow_extended_lifetime: Option<bool>,
    pub audience: Option<String>,
    pub include_email: Option<bool>,
    pub id_token_assumed_ttl_seconds: Option<u64>,
    pub delegates: Option<Vec<String>>,
    pub max_cache_ttl_ms: Option<u64>,
}

/// What was written, or else the default.
pub open spec fn given_or<T>(given: Option<T>, default: T) -> T {
    match given {
        Some(value) => value,
        None => default,
    }
}

/// Whether `text` is what was written, or else the default text.
pub open spec fn is_text_or(text: String, given: Option<String>, default: Seq<char>) -> bool {
    match given {
        Some(value) => text == value,
        None => text@ == default,
    }
}

/// Whether `list` is what was written, or else empty.
pub open spec fn is_list_or_empty(list: Vec<String>, given: Option<Vec<String>>) -> bool {
    match given {
        Some(value) => list@ == value@,
        None => list@.len() == 0,
    }
}

/// What an optional list holds.
pub open spec fn opt_list(list: Option<Vec<String>>) -> Option<Seq<String>> {
    match list {
        Some(list) => Some(list@),
        None => None,
    }
}

/// Whether `target` is what a document says of it, with the defaults in place
/// of what it leaves out.
pub open spec fn completes_target(document: TargetDocument, target: TargetConfig) -> bool {
    &&& target.token_kind == given_or(document.token_kind, TokenKind::AccessToken)
    &&& is_text_or(target.service_account, document.service_account, Seq::empty())
    &&& target.identity_mapping == given_or(document.identity_mapping, IdentityMapping::Static)
    &&& target.service_account_template == document.service_account_template
    &&& opt_list(target.allowed_service_accounts) == opt_list(document.allowed_service_accounts)
    &&& is_list_or_empty(target.scopes, document.scopes)
    &&& target.lifetime_seconds == document.lifetime_seconds
    &&& target.allow_extended_lifetime == given_or(document.allow_extended_lifetime, false)
    &&& target.audience == document.audience
    &&& target.include_email == given_or(document.include_email, true)
    &&& target.id_token_assumed_ttl_seconds == given_or(
        document.id_token_assumed_ttl_seconds,
        3300,
    )
    &&& is_list_or_empty(target.delegates, document.delegates)
    &&& target.max_cache_ttl_ms == given_or(document.max_cache_ttl_ms, 3_600_000)
}

/// Whether `base_auth` is what a document says of it, with the defaults in
/// place of what it leaves out.
pub open spec fn completes_base_auth(
    document: Option<BaseAuthDocument>,
    base_auth: BaseAuth,
) -> bool {
    match document {
        Some(BaseAuthDocument::MetadataServer { endpoint, service_account }) => {
            &&& base_auth matches BaseAuth::MetadataServer { endpoint: e, service_account: s }
            &&& is_text_or(e, endpoint, "http://metadata.google.internal"@)
            &&& is_text_or(s, service_account, "default"@)
        },
        Some(BaseAuthDocument::StaticAccessToken { access_token }) => {
            base_auth == BaseAuth::StaticAccessToken { access_token }
        },
        None => is_default_base_auth(base_auth),
    }
}

/// What a list of entries maps each name to, where a later entry replaces an
/// earlier one of the same name.
pub open spec fn last_entries<V>(entries: Seq<Entry<V>>) -> Map<Seq<char>, V>
    decreases entries.len(),
{
    if entries.len() == 0 {
        Map::empty()
    } else {
        last_entries(entries.drop_last()).insert(entries.last().name@, entries.last().value)
    }
}

/// Whether `targets` holds exactly the targets of a document, each completed.
pub open spec fn completes_targets(
    documents: Map<Seq<char>, TargetDocument>,
    targets: Map<Seq<char>, TargetConfig>,
) -> bool {
    &&& targets.dom() == documents.dom()
    &&& forall|name: Seq<char>| #[trigger]
        documents.dom().contains(name) ==> completes_target(documents[name], targets[name])
}

/// Whether `config` is what a document says, with the defaults in place of what
/// it leaves out.
pub open spec fn completes(document: ConfigDocument, config: GcpImpersonationConfig) -> bool {
    &&& completes_base_auth(document.base_auth, config.base_auth)
    &&& is_text_or(
        config.iam_credentials_endpoint,
        document.iam_credentials_endpoint,
        "https://iamcredentials.googleapis.com"@,
    )
    &&& config.connect_timeout_ms == given_or(document.connect_timeout_ms, 5000)
    &&& config.operation_timeout_ms == given_or(document.operation_timeout_ms, 15_000)
    &&& config.refresh_buffer_ms == given_or(document.refresh_buffer_ms, 60_000)
    &&& completes_targets(last_entries(document.targets@), config.targets@)
}

fn text_or(given: Option<String>, default: String) -> (r: String)
    ensures
        is_text_or(r, given, default@),
{
    match given {
        Some(value) => value,
        None => default,
    }
}

fn list_or_empty(given: Option<Vec<String>>) -> (r: Vec<String>)
    ensures
        is_list_or_empty(r, given),
{
    match given {
        Some(value) => value,
        None => Vec::new(),
    }
}

impl TargetDocument {
    /// The target, with the defaults in place of what was left out.
    pub fn complete(self) -> (r: TargetConfig)
        ensures
            completes_target(self, r),
    {
        TargetConfig {
            token_kind: match self.token_kind {
                Some(kind) => kind,
                None => TokenKind::default(),
            },
            service_account: text_or(self.service_account, String::new()),
            identity_mapping: match self.identity_mapping {
                Some(mapping) => mapping,
                None => IdentityMapping::default(),
            },
            service_account_template: self.service_account_template,
            allowed_service_accounts: self.allowed_service_accounts,
            scopes: list_or_empty(self.scopes),
            lifetime_seconds: self.lifetime_seconds,
            allow_extended_lifetime: match self.allow_extended_lifetime {
                Some(allow) => allow,
                None => false,
            },
            audience: self.audience,
            include_email: match self.include_email {
                Some(email) => email,
                None => default_true(),
            },
            id_token_assumed_ttl_seconds: match self.id_token_assumed_ttl_seconds {
                Some(ttl) => ttl,
                None => default_id_token_ttl(),
            },
            delegates: list_or_empty(self.delegates),
            max_cache_ttl_ms: match self.max_cache_ttl_ms {
                Some(ttl) => ttl,
                None => default_max_cache_ttl_ms(),
            },
        }
    }
}

impl ConfigDocument {
    /// The configuration, with the defaults in place of what was left out.
    pub fn complete(self) -> (r: GcpImpersonationConfig)
        ensures
            completes(self, r),
    {
        let base_auth: BaseAuth = match self.base_auth {
            Some(BaseAuthDocument::MetadataServer { endpoint, service_account }) => {
                BaseAuth::MetadataServer {
                    endpoint: text_or(endpoint, default_metadata_endpoint()),
                    service_account: text_or(service_account, default_metadata_sa()),
                }
            },
            Some(BaseAuthDocument::StaticAccessToken { access_token }) => {
                BaseAuth::StaticAccessToken { access_token }
            },
            None => BaseAuth::default(),
        };
        let mut targets: NameMap<TargetConfig> = NameMap::new();
        let ghost written = self.targets@;
        assert(written.take(0) =~= Seq::<Entry<TargetDocument>>::empty());
        assert(targets@.dom() =~= last_entries(written.take(0)).dom());
        for entry in it: self.targets
            invariant
                it.seq() == written,
                completes_targets(last_entries(written.take(it.index() as int)), targets@),
        {
            let ghost i = it.index() as int;
            let ghost before = targets@;
            assert(written.take(i + 1).drop_last() =~= written.take(i));
            let target: TargetConfig = entry.value.complete();
            targets.insert(entry.name, target);
            proof {
                let old_map = last_entries(written.take(i));
                let new_map = last_entries(written.take(i + 1));
                assert(targets@.dom() =~= new_map.dom());
                assert forall|name: Seq<char>| #[trigger]
                    new_map.dom().contains(name) implies completes_target(
                    new_map[name],
                    targets@[name],
                ) by {
                    if name != written[i].name@ {
                        assert(old_map.dom().contains(name));
                    }
                }
            }
        }
        assert(written.take(written.len() as int) =~= written);
        GcpImpersonationConfig {
            base_auth,
            iam_credentials_endpoint: text_or(
                self.iam_credentials_endpoint,
                default_iam_endpoint(),
            ),
            connect_timeout_ms: match self.connect_timeout_ms {
                Some(ms) => ms,
                None => default_connect_timeout_ms(),
            },
            operation_timeout_ms: match self.operation_timeout_ms {
                Some(ms) => ms,
                None => default_operation_timeout_ms(),
            },
            refresh_buffer_ms: match self.refresh_buffer_ms {
                Some(ms) => ms,
                None => default_refresh_buffer_ms(),
            },
            targets,
        }
    }
}

/// What a document says is one configuration, as far as its checks can tell.
pub proof fn completions_have_the_same_faults(
    document: ConfigDocument,
    a: GcpImpersonationConfig,
    b: GcpImpersonationConfig,
)
    requires
        completes(document, a),
        completes(document, b),
    ensures
        is_valid(a) == is_valid(b),
        forall|e: ConfigErrorView| is_fault(a, e) == is_fault(b, e),
{
    let documents = last_entries(document.targets@);
    assert forall|name: Seq<char>| documents.dom().contains(name) implies #[trigger] target_error(
        name,
        a.targets@[name],
    ) == target_error(name, b.targets@[name]) by {
        let s = a.targets@[name];
        let t = b.targets@[name];
        assert(completes_target(documents[name], s));
        assert(completes_target(documents[name], t));
        assert(s.scopes@ =~= t.scopes@);
        assert(s.delegates@ =~= t.delegates@);
    }
    assert(a.targets@.dom() == b.targets@.dom());
    assert((a.targets@ == Map::<Seq<char>, TargetConfig>::empty()) == (b.targets@ == Map::<
        Seq<char>,
        TargetConfig,
    >::empty())) by {
        if a.targets@ == Map::<Seq<char>, TargetConfig>::empty() {
            assert(b.targets@ =~= Map::<Seq<char>, TargetConfig>::empty());
        }
        if b.targets@ == Map::<Seq<char>, TargetConfig>::empty() {
            assert(a.targets@ =~= Map::<Seq<char>, TargetConfig>::empty());
        }
    }
    assert(base_error(a) == base_error(b));
    assert(targets_valid(a.targets@) == targets_valid(b.targets@));
    assert forall|name: Seq<char>| is_first_faulty(a.targets@, name) == #[trigger] is_first_faulty(
        b.targets@,
        name,
    ) by {}
    assert forall|e: ConfigErrorView| is_fault(a, e) == is_fault(b, e) by {
        if base_error(a) is None {
            if is_fault(a, e) {
                let name = choose|name: Seq<char>| #[trigger]
                    is_first_faulty(a.targets@, name) && target_error(name, a.targets@[name])
                        == Some(e);
                assert(is_first_faulty(b.targets@, name));
            }
            if is_fault(b, e) {
                let name = choose|name: Seq<char>| #[trigger]
                    is_first_faulty(b.targets@, name) && target_error(name, b.targets@[name])
                        == Some(e);
                assert(is_first_faulty(a.targets@, name));
            }
        }
    }
}

/// Whether a document says of a target all that there is to say.
pub open spec fn is_target_document(document: TargetDocument, target: TargetConfig) -> bool {
    &&& document.token_kind == Some(target.token_kind)
    &&& document.service_account == Some(target.service_account)
    &&& document.identity_mapping == Some(target.identity_mapping)
    &&& document.service_account_template == target.service_account_template
    &&& opt_list(document.allowed_service_accounts) == opt_list(target.allowed_service_accounts)
    &&& opt_list(document.scopes) == Some(target.scopes@)
    &&& document.lifetime_seconds == target.lifetime_seconds
    &&& document.allow_extended_lifetime == Some(target.allow_extended_lifetime)
    &&& document.audience == target.audience
    &&& document.include_email == Some(target.include_email)
    &&& document.id_token_assumed_ttl_seconds == Some(target.id_token_assumed_ttl_seconds)
    &&& opt_list(document.delegates) == Some(target.delegates@)
    &&& document.max_cache_ttl_ms == Some(target.max_cache_ttl_ms)
}

/// Whether a document says of a base token all that there is to say.
pub open spec fn is_base_auth_document(
    document: Option<BaseAuthDocument>,
    base_auth: BaseAuth,
) -> bool {
    match base_auth {
        BaseAuth::MetadataServer { endpoint, service_account } => document == Some(
            BaseAuthDocument::MetadataServer {
                endpoint: Some(endpoint),
                service_account: Some(service_account),
            },
        ),
        BaseAuth::StaticAccessToken { access_token } => document == Some(
            BaseAuthDocument::StaticAccessToken { access_token },
        ),
    }
}

/// Whether documents say of each target all that there is to say.
pub open spec fn are_target_documents(
    documents: Map<Seq<char>, TargetDocument>,
    targets: Map<Seq<char>, TargetConfig>,
) -> bool {
    &&& documents.dom() == targets.dom()
    &&& forall|name: Seq<char>| #[trigger]
        targets.dom().contains(name) ==> is_target_document(documents[name], targets[name])
}

/// Whether a document says of a configuration all that there is to say, and
/// leaves nothing to the defaults.
pub open spec fn is_document_of(document: ConfigDocument, config: GcpImpersonationConfig) -> bool {
    &&& is_base_auth_document(document.base_auth, config.base_auth)
    &&& document.iam_credentials_endpoint == Some(config.iam_credentials_endpoint)
    &&& document.connect_timeout_ms == Some(config.connect_timeout_ms)
    &&& document.operation_timeout_ms == Some(config.operation_timeout_ms)
    &&& document.refresh_buffer_ms == Some(config.refresh_buffer_ms)
    &&& are_target_documents(last_entries(document.targets@), config.targets@)
}

fn copy_text(text: &Option<String>) -> (r: Option<String>)
    ensures
        r == *text,
{
    match text {
        Some(text) => Some(text.clone()),
        None => None,
    }
}

impl TargetConfig {
    /// The target as a document, in full.
    pub fn document(&self) -> (r: TargetDocument)
        ensures
            is_target_document(r, *self),
    {
        TargetDocument {
            token_kind: Some(self.token_kind),
            service_account: Some(self.service_account.clone()),
            identity_mapping: Some(self.identity_mapping),
            service_account_template: copy_text(&self.service_account_template),
            allowed_service_accounts: match &self.allowed_service_accounts {
                Some(allowed) => Some(copy_list(allowed)),
                None => None,
            },
            scopes: Some(copy_list(&self.scopes)),
            lifetime_seconds: self.lifetime_seconds,
            allow_extended_lifetime: Some(self.allow_extended_lifetime),
            audience: copy_text(&self.audience),
            include_email: Some(self.include_email),
            id_token_assumed_ttl_seconds: Some(self.id_token_assumed_ttl_seconds),
            delegates: Some(copy_list(&self.delegates)),
            max_cache_ttl_ms: Some(self.max_cache_ttl_ms),
        }
    }
}

proof fn lemma_last_entries_in_order<V>(entries: Seq<Entry<V>>)
    requires
        in_name_order(entries),
    ensures
        last_entries(entries) == entries_map(entries),
    decreases entries.len(),
{
    if entries.len() > 0 {
        last_entry_is_inserted(entries);
        lemma_last_entries_in_order(entries.drop_last());
    } else {
        assert(entries_map(entries) =~= Map::<Seq<char>, V>::empty());
    }
}

impl GcpImpersonationConfig {
    /// The configuration as a document, in full.
    pub fn document(&self) -> (r: ConfigDocument)
        ensures
            is_document_of(r, *self),
    {
        let base_auth: BaseAuthDocument = match &self.base_auth {
            BaseAuth::MetadataServer { endpoint, service_account } => {
                BaseAuthDocument::MetadataServer {
                    endpoint: Some(endpoint.clone()),
                    service_account: Some(service_account.clone()),
                }
            },
            BaseAuth::StaticAccessToken { access_token } => {
                BaseAuthDocument::StaticAccessToken { access_token: access_token.clone() }
            },
        };
        let entries: &Vec<Entry<TargetConfig>> = self.targets.entries();
        let mut targets: Vec<Entry<TargetDocument>> = Vec::new();
        let mut i: usize = 0;
        assert(last_entries(targets@).dom() =~= last_entries(entries@.take(0)).dom());
        while i < entries.len()
            invariant
                i <= entries@.len(),
                are_target_documents(
                    last_entries(targets@),
                    last_entries(entries@.take(i as int)),
                ),
            decreases entries@.len() - i,
        {
            let ghost before = targets@;
            let document: TargetDocument = entries[i].value.document();
            targets.push(Entry { name: entries[i].name.clone(), value: document });
            proof {
                assert(targets@.drop_last() =~= before);
                assert(entries@.take(i + 1).drop_last() =~= entries@.take(i as int));
                assert(last_entries(targets@).dom() =~= last_entries(entries@.take(i + 1)).dom());
            }
            i = i + 1;
        }
        proof {
            assert(entries@.take(i as int) =~= entries@);
            lemma_last_entries_in_order(entries@);
        }
        ConfigDocument {
            base_auth: Some(base_auth),
            iam_credentials_endpoint: Some(self.iam_credentials_endpoint.clone()),
            connect_timeout_ms: Some(self.connect_timeout_ms),
            operation_timeout_ms: Some(self.operation_timeout_ms),
            refresh_buffer_ms: Some(self.refresh_buffer_ms),
            targets,
        }
    }
}

/// Whether two targets are the same, field by field.
pub open spec fn same_target(a: TargetConfig, b: TargetConfig) -> bool {
    &&& a.token_kind == b.token_kind
    &&& a.service_account == b.service_account
    &&& a.identity_mapping == b.identity_mapping
    &&& a.service_account_template == b.service_account_template
    &&& opt_list(a.allowed_service_accounts) == opt_list(b.allowed_service_accounts)
    &&& a.scopes@ == b.scopes@
    &&& a.lifetime_seconds == b.lifetime_seconds
    &&& a.allow_extended_lifetime == b.allow_extended_lifetime
    &&& a.audience == b.audience
    &&& a.include_email == b.include_email
    &&& a.id_token_assumed_ttl_seconds == b.id_token_assumed_ttl_seconds
    &&& a.delegates@ == b.delegates@
    &&& a.max_cache_ttl_ms == b.max_cache_ttl_ms
}

/// Whether two configurations are the same, field by field.
pub open spec fn same_config(a: GcpImpersonationConfig, b: GcpImpersonationConfig) -> bool {
    &&& a.base_auth == b.base_auth
    &&& a.iam_credentials_endpoint == b.iam_credentials_endpoint
    &&& a.connect_timeout_ms == b.connect_timeout_ms
    &&& a.operation_timeout_ms == b.operation_timeout_ms
    &&& a.refresh_buffer_ms == b.refresh_buffer_ms
    &&& a.targets@.dom() == b.targets@.dom()
    &&& forall|name: Seq<char>| #[trigger]
        a.targets@.dom().contains(name) ==> same_target(a.targets@[name], b.targets@[name])
}

/// A configuration is a completion of the document that says it in full.
pub proof fn documents_complete_to_their_configuration(
    document: ConfigDocument,
    config: GcpImpersonationConfig,
)
    requires
        is_document_of(document, config),
    ensures
        completes(document, config),
{
    let documents = last_entries(document.targets@);
    assert forall|name: Seq<char>| #[trigger]
        documents.dom().contains(name) implies completes_target(
        documents[name],
        config.targets@[name],
    ) by {
        assert(is_target_document(documents[name], config.targets@[name]));
    }
}

/// Every completion of a document that says a configuration in full is the same
/// configuration, and is valid where that is.
pub proof fn documents_give_their_configuration_back(
    document: ConfigDocument,
    config: GcpImpersonationConfig,
    read: GcpImpersonationConfig,
)
    requires
        is_document_of(document, config),
        completes(document, read),
    ensures
        same_config(read, config),
        is_valid(read) == is_valid(config),
{
    let documents = last_entries(document.targets@);
    assert forall|name: Seq<char>| #[trigger] documents.dom().contains(name) implies same_target(
        read.targets@[name],
        config.targets@[name],
    ) by {
        assert(is_target_document(documents[name], config.targets@[name]));
        assert(completes_target(documents[name], read.targets@[name]));
    }
    documents_complete_to_their_configuration(document, config);
    completions_have_the_same_faults(document, config, read);
}

impl GcpImpersonationConfig {
    /// Makes the configuration out of a decoded document, or out of the text
    /// that says why it could not be decoded: puts in the defaults and checks
    /// the result. A valid configuration that was written out in full is read
    /// back as it was.
    pub fn parse(decoded: Result<ConfigDocument, String>) -> (r: Result<Self, ConfigError>)
        ensures
            decoded matches Err(text) ==> r matches Err(e) && e@ == ConfigErrorView::InvalidJson(
                text@,
            ),
            decoded matches Ok(document) ==> {
                &&& r matches Ok(config) ==> completes(document, config) && is_valid(config)
                &&& r matches Err(e) ==> {
                    &&& exists|config: Self| completes(document, config)
                    &&& forall|config: Self| #[trigger]
                        completes(document, config) ==> !is_valid(config) && is_fault(config, e@)
                }
                &&& forall|config: Self| #[trigger]
                    is_document_of(document, config) && is_valid(config) ==> {
                        r matches Ok(read) && same_config(read, config)
                    }
            },
    {
        let document: ConfigDocument = match decoded {
            Ok(document) => document,
            Err(text) => {
                return Err(ConfigError::InvalidJson(text));
            },
        };
        let config: GcpImpersonationConfig = document.complete();
        proof {
            assert forall|other: Self| #[trigger]
                is_document_of(document, other) implies same_config(config, other) && is_valid(
                config,
            ) == is_valid(other) by {
                documents_give_their_configuration_back(document, other, config);
            }
        }
        match config.validate() {
            Ok(_) => Ok(config),
            Err(e) => {
                proof {
                    assert forall|other: Self| #[trigger]
                        completes(document, other) implies !is_valid(other) && is_fault(
                        other,
                        e@,
                    ) by {
                        completions_have_the_same_faults(document, config, other);
                    }
                }
                Err(e)
            },
        }
    }
}

} // verus!
