//! What is made of a configuration, and what is told where none is.

use super::configurations::{
    agree, allowlist_is_in_order, delegates_are_in_order, mapping_is_in_order, may_be_plain,
    token_is_in_order,
};
use crate::config::{
    config_error_text, is_allowed_api_endpoint, is_allowed_endpoint, BaseAuth, ConfigDocument,
    ConfigError, GcpImpersonationConfig, TargetConfig, TargetDocument,
};
use crate::name_map::NameMap;
use crate::plugin::{
    is_control_char, load_refusal_message, sanitize_subject, without_controls,
    GcpImpersonationPlugin, Refusal,
};
use crate::protocol::{CredentialError, PluginManifest};
use crate::text::without_trailing_slashes;
use vstd::prelude::*;

verus! {

// Checking.

/// A host without a user before it may be called without TLS where it is this
/// machine or the metadata server; for the API, where it is this machine.
pub proof fn plain_hosts_are_allowed_by_name(
    url: &str,
    host: Seq<char>,
    tail: Seq<char>,
    r: bool,
    s: bool,
)
    requires
        call_ensures(is_allowed_endpoint, (url,), r),
        call_ensures(is_allowed_api_endpoint, (url,), s),
        url@ == "http://"@ + host + tail,
        forall|i: int| 0 <= i < host.len() ==> #[trigger] host[i] != '/' && host[i] != ':',
        tail.len() > 0 ==> tail[0] == '/' || tail[0] == ':',
        !host.contains('@'),
        !tail.contains('@'),
    ensures
        r <==> may_be_plain(host),
        s <==> host == "localhost"@ || host == "127.0.0.1"@,
{
    super::configurations::plain_endpoints_name_an_allowed_host(host, tail);
}

/// Every host may be called over TLS.
pub proof fn hosts_are_allowed_over_tls(url: &str, rest: Seq<char>, r: bool, s: bool)
    requires
        call_ensures(is_allowed_endpoint, (url,), r),
        call_ensures(is_allowed_api_endpoint, (url,), s),
        url@ == "https://"@ + rest,
    ensures
        r <==> rest.len() > 0,
        s <==> rest.len() > 0,
{
    super::configurations::tls_endpoints_need_a_host(rest);
}

/// A target passes where all of it is in order, and only there.
pub proof fn targets_pass_where_all_is_in_order(
    config: &GcpImpersonationConfig,
    name: &str,
    target: &TargetConfig,
    r: Result<(), ConfigError>,
)
    requires
        call_ensures(GcpImpersonationConfig::validate_target, (config, name, target), r),
    ensures
        r is Ok <==> {
            &&& mapping_is_in_order(*target)
            &&& allowlist_is_in_order(*target)
            &&& token_is_in_order(*target)
            &&& delegates_are_in_order(*target)
            &&& 1 <= target.max_cache_ttl_ms <= 86_400_000
        },
{
    super::configurations::targets_without_fault_are_in_order(name@, *target);
}

/// A configuration passes only where every one of its targets does, where its
/// endpoint may be called, and where it has a target at all.
pub proof fn configurations_pass_with_all_their_targets(
    config: &GcpImpersonationConfig,
    url: &str,
    name: &str,
    target: &TargetConfig,
    r: Result<(), ConfigError>,
    endpoint_allowed: bool,
    of_target: Result<(), ConfigError>,
)
    requires
        call_ensures(GcpImpersonationConfig::validate, (config,), r),
        url@ == config.iam_credentials_endpoint@,
        call_ensures(is_allowed_api_endpoint, (url,), endpoint_allowed),
        call_ensures(GcpImpersonationConfig::validate_target, (config, name, target), of_target),
    ensures
        !endpoint_allowed ==> {
            &&& r matches Err(ConfigError::InvalidEndpointScheme { field })
            &&& field@ == "iam_credentials_endpoint"@
        },
        r is Ok && config.targets@.dom().contains(name@) && *target == config.targets@[name@]
            ==> of_target is Ok,
        r is Ok ==> config.targets@ != Map::<Seq<char>, TargetConfig>::empty(),
        r is Ok ==> match config.base_auth {
            BaseAuth::StaticAccessToken { access_token } => access_token@.len() > 0,
            BaseAuth::MetadataServer { service_account, .. } => service_account@.len() > 0,
        },
{
    super::configurations::faults_in_the_source_of_a_base_token(config.base_auth);
    super::callers::emails_have_an_at_sign(Seq::empty());
}

// Loading.

/// A configuration that is written out in full and completed again is the same in
/// every field.
pub proof fn documents_are_read_back(
    config: &GcpImpersonationConfig,
    document: ConfigDocument,
    r: GcpImpersonationConfig,
    name: Seq<char>,
)
    requires
        call_ensures(GcpImpersonationConfig::document, (config,), document),
        call_ensures(ConfigDocument::complete, (document,), r),
    ensures
        r.base_auth == config.base_auth,
        r.iam_credentials_endpoint@ == config.iam_credentials_endpoint@,
        r.connect_timeout_ms == config.connect_timeout_ms,
        r.operation_timeout_ms == config.operation_timeout_ms,
        r.refresh_buffer_ms == config.refresh_buffer_ms,
        r.targets@.dom() == config.targets@.dom(),
        config.targets@.dom().contains(name) ==> agree(r.targets@[name], config.targets@[name]),
{
    super::configurations::documents_in_full_say_every_field(document, *config);
    super::configurations::configurations_are_as_written_or_by_default(document, r);
    if config.targets@.dom().contains(name) {
        let entry = crate::config::last_entries(document.targets@)[name];
        super::configurations::target_documents_in_full_say_every_field(
            entry,
            config.targets@[name],
        );
        super::configurations::targets_are_as_written_or_by_default(entry, r.targets@[name]);
    }
}

/// A target that is written out in full and completed again is the same in every
/// field.
pub proof fn target_documents_are_read_back(
    target: &TargetConfig,
    document: TargetDocument,
    r: TargetConfig,
)
    requires
        call_ensures(TargetConfig::document, (target,), document),
        call_ensures(TargetDocument::complete, (document,), r),
    ensures
        agree(r, *target),
{
    super::configurations::target_documents_in_full_say_every_field(document, *target);
    super::configurations::targets_are_as_written_or_by_default(document, r);
}

/// Whether a plugin is set up for its configuration.
pub open spec fn is_set_up(plugin: GcpImpersonationPlugin, version: Seq<char>) -> bool {
    &&& plugin.manifest.id@ == "dev.mcpg.credential.gcp-impersonation"@
    &&& plugin.manifest.version@ == version
    &&& plugin.client.base == plugin.config.base_auth
    &&& plugin.client.refresh_buffer_ms == plugin.config.refresh_buffer_ms
    &&& plugin.client.iam_endpoint@ == without_trailing_slashes(
        plugin.config.iam_credentials_endpoint@,
    )
}

/// A plugin is set up for the configuration that it was made from, and presents
/// itself in the version that it was built in.
pub proof fn plugins_are_set_up_for_their_configuration(
    config: GcpImpersonationConfig,
    version: &str,
    module: &str,
    r: GcpImpersonationPlugin,
    manifest: &PluginManifest,
)
    requires
        call_ensures(GcpImpersonationPlugin::from_validated_config, (config, version, module), r),
        call_ensures(GcpImpersonationPlugin::manifest, (&r,), manifest),
    ensures
        r.config == config,
        is_set_up(r, version@),
        *manifest == r.manifest,
{
}

// What is told.

/// Where the plugin refuses to load, the fault is told in its own words.
pub proof fn refusals_to_load_quote_the_fault(e: &ConfigError, text: String, r: String)
    requires
        call_ensures(ConfigError::message, (e,), text),
        call_ensures(load_refusal_message, (e,), r),
    ensures
        text@ == config_error_text(e@),
        r@ == "gcp-impersonation config parse failed: "@ + text@
            + ". A misconfigured credential issuer is a security hole; refusing to load."@,
{
}

/// Every refusal but that of an unknown target is one of authorization, and is
/// counted under its kind.
pub proof fn refusals_are_told_and_counted(
    refusal: &Refusal,
    e: CredentialError,
    label: Option<&'static str>,
)
    requires
        call_ensures(Refusal::error, (refusal,), e),
        call_ensures(Refusal::label, (refusal,), label),
    ensures
        match *refusal {
            Refusal::UnknownTarget { name } => {
                &&& e is Misconfigured && e->Misconfigured_reason@ == "unknown target: "@ + name@
                &&& label is None
            },
            Refusal::UntrustedIdentity { trust_level } => {
                &&& e is NotAuthorized && e->NotAuthorized_reason@
                    == "identity-derived service account requires Verified trust; caller trust is `"@
                    + trust_level@ + "`"@
                &&& label is Some && label->0@ == "untrusted_identity"@
            },
            Refusal::InvalidServiceAccount => {
                &&& e is NotAuthorized && e->NotAuthorized_reason@
                    == "resolved value is not a valid service-account email"@
                &&& label is Some && label->0@ == "invalid_service_account"@
            },
            Refusal::NotAllowed => {
                &&& e is NotAuthorized && e->NotAuthorized_reason@
                    == "resolved service account is not in this target's allowed_service_accounts"@
                &&& label is Some && label->0@ == "sa_not_allowed"@
            },
            Refusal::EmptyIdentity { reason } => {
                &&& e is NotAuthorized && e->NotAuthorized_reason@ == reason@
                &&& label is Some && label->0@ == "empty_identity"@
            },
            Refusal::SubstitutionFailed { field } => {
                &&& e is NotAuthorized && e->NotAuthorized_reason@
                    == "identity template substitution failed: field `"@ + field@
                    + "` is None or out-of-bounds"@
                &&& label is Some && label->0@ == "substitution_failed"@
            },
        },
{
}

/// A label has at most 256 characters, and none of them is a control character.
pub proof fn labels_are_short_and_printable(subject: &str, r: String)
    requires
        call_ensures(sanitize_subject, (subject,), r),
    ensures
        r@.len() <= 256,
        forall|i: int|
            0 <= i < r@.len() ==> '\u{1f}' < #[trigger] r@[i] && !('\u{7f}' <= r@[i] && r@[i]
                <= '\u{9f}'),
{
    let kept = without_controls(subject@);
    assert forall|i: int| 0 <= i < r@.len() implies '\u{1f}' < #[trigger] r@[i] && !('\u{7f}'
        <= r@[i] && r@[i] <= '\u{9f}') by {
        assert(r@[i] == kept[i]);
        subject@.lemma_filter_pred(|c: char| !is_control_char(c), i);
    }
}

// Maps.

/// What was put under a name is found under it, and what was under other names
/// is still there.
pub proof fn what_was_put_is_found<V>(
    map: &mut NameMap<V>,
    name: String,
    value: V,
    after: &NameMap<V>,
    other: &str,
    r: Option<&V>,
)
    requires
        call_ensures(NameMap::<V>::insert, (map, name, value), ()),
        *after == *final(map),
        call_ensures(NameMap::<V>::get, (after, other), r),
    ensures
        other@ == name@ ==> r == Some(&value),
        other@ != name@ ==> (r is Some <==> old(map)@.dom().contains(other@)),
        other@ != name@ && r is Some ==> *r->0 == old(map)@[other@],
{
}

/// A map is empty where it has no entries, as one that is new.
pub proof fn maps_without_entries_are_empty<V>(
    fresh: NameMap<V>,
    map: &NameMap<V>,
    n: usize,
    r: bool,
    name: &str,
    found: Option<&V>,
)
    requires
        call_ensures(NameMap::<V>::new, (), fresh),
        call_ensures(NameMap::<V>::len, (map,), n),
        call_ensures(NameMap::<V>::is_empty, (map,), r),
        call_ensures(NameMap::<V>::get, (map, name), found),
    ensures
        !fresh@.dom().contains(name@),
        r <==> n == 0,
        r ==> found is None,
        n == map@.dom().len(),
{
    if n == 0 {
        assert(map@.dom() =~= Set::<Seq<char>>::empty());
        assert(map@ =~= Map::<Seq<char>, V>::empty());
    }
    if r {
        assert(map@.dom() =~= Set::<Seq<char>>::empty());
    }
}

} // verus!
