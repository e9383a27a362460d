//! Who is granted what, and what a credential holds.

use crate::client::{bad_expiry, seconds_until, undecodable};
use crate::config::{
    config_error_text, ConfigErrorView, GcpImpersonationConfig, TargetConfig, TokenKind,
};
use crate::identity_mapping::{is_sa_email, resolution, ResolutionView};
use crate::outside::{is_utc_time, rfc3339_timestamp};
use crate::plugin::{
    capped_ttl, credential, grant, is_control_char, is_manifest, is_of_kind, is_outcome,
    is_path_root, is_plugin, issue_outcome, load_refusal, refusal_error, refusal_label,
    separator_at, subject_label, target_grant, without_controls, DecodedReply,
    GcpImpersonationPlugin, Refusal, RefusalView,
};
use crate::protocol::{
    CredentialError, CredentialErrorView, IssuedCredential, IssuedCredentialView, PluginClass,
    PluginIdentity, PluginManifest,
};
use crate::text::{joined, without_trailing_slashes};
use vstd::prelude::*;

verus! {

// Who is granted what.

/// Whether an email is among those on a list.
pub open spec fn is_among(list: Seq<String>, email: Seq<char>) -> bool {
    exists|i: int| 0 <= i < list.len() && (#[trigger] list[i])@ == email
}

/// Which account is granted at a target, in full. An account that comes from the
/// caller takes a caller whose trust level is `verified`, a well-formed email and
/// a place on the allowlist, if there is one, in that order; an account of the
/// operator's takes the well-formed email alone.
pub proof fn accounts_are_granted_by_trust_shape_and_list(
    identity: PluginIdentity,
    target: TargetConfig,
    email: Seq<char>,
    derived: bool,
)
    requires
        resolution(identity, target) == (ResolutionView::Target {
            email,
            identity_derived: derived,
        }),
    ensures
        derived && identity.trust_level@ != "verified"@ ==> target_grant(identity, target) == Err::<
            Seq<char>,
            RefusalView,
        >(RefusalView::UntrustedIdentity { trust_level: identity.trust_level@ }),
        (!derived || identity.trust_level@ == "verified"@) && !is_sa_email(email) ==> target_grant(
            identity,
            target,
        ) == Err::<Seq<char>, RefusalView>(RefusalView::InvalidServiceAccount),
        derived && identity.trust_level@ == "verified"@ && is_sa_email(email)
            ==> match target.allowed_service_accounts {
            None => target_grant(identity, target) == Ok::<Seq<char>, RefusalView>(email),
            Some(allowed) => if is_among(allowed@, email) {
                target_grant(identity, target) == Ok::<Seq<char>, RefusalView>(email)
            } else {
                target_grant(identity, target) == Err::<Seq<char>, RefusalView>(
                    RefusalView::NotAllowed,
                )
            },
        },
        !derived && is_sa_email(email) ==> target_grant(identity, target) == Ok::<
            Seq<char>,
            RefusalView,
        >(email),
{
}

/// Where no account is selected, none is granted, and it is told why.
pub proof fn without_an_account_nothing_is_granted(identity: PluginIdentity, target: TargetConfig)
    ensures
        resolution(identity, target) matches ResolutionView::EmptyDerived { reason }
            ==> target_grant(identity, target) == Err::<Seq<char>, RefusalView>(
            RefusalView::EmptyIdentity { reason },
        ),
        resolution(identity, target) matches ResolutionView::SubstitutionFailed { field }
            ==> target_grant(identity, target) == Err::<Seq<char>, RefusalView>(
            RefusalView::SubstitutionFailed { field },
        ),
{
}

/// A target is looked up by its name; a name that is not there is told.
pub proof fn targets_are_found_by_their_name(
    config: GcpImpersonationConfig,
    identity: PluginIdentity,
    name: Seq<char>,
)
    ensures
        config.targets@.dom().contains(name) ==> grant(config, identity, name) == target_grant(
            identity,
            config.targets@[name],
        ),
        !config.targets@.dom().contains(name) ==> grant(config, identity, name) == Err::<
            Seq<char>,
            RefusalView,
        >(RefusalView::UnknownTarget { name }),
{
}

/// What a caller is told of each refusal.
pub proof fn refusals_say_why(
    name: Seq<char>,
    trust_level: Seq<char>,
    reason: Seq<char>,
    field: Seq<char>,
)
    ensures
        refusal_error(RefusalView::UnknownTarget { name }) == (CredentialErrorView::Misconfigured {
            reason: "unknown target: "@ + name,
        }),
        refusal_error(RefusalView::UntrustedIdentity { trust_level }) == (
        CredentialErrorView::NotAuthorized {
            reason: "identity-derived service account requires Verified trust; caller trust is `"@
                + trust_level + "`"@,
        }),
        refusal_error(RefusalView::InvalidServiceAccount) == (CredentialErrorView::NotAuthorized {
            reason: "resolved value is not a valid service-account email"@,
        }),
        refusal_error(RefusalView::NotAllowed) == (CredentialErrorView::NotAuthorized {
            reason: "resolved service account is not in this target's allowed_service_accounts"@,
        }),
        refusal_error(RefusalView::EmptyIdentity { reason }) == (
        CredentialErrorView::NotAuthorized { reason }),
        refusal_error(RefusalView::SubstitutionFailed { field }) == (
        CredentialErrorView::NotAuthorized {
            reason: "identity template substitution failed: field `"@ + field
                + "` is None or out-of-bounds"@,
        }),
{
}

/// Under which label each refusal is counted.
pub proof fn refusals_are_counted_by_their_kind(
    name: Seq<char>,
    trust_level: Seq<char>,
    reason: Seq<char>,
    field: Seq<char>,
)
    ensures
        refusal_label(RefusalView::UnknownTarget { name }) is None,
        refusal_label(RefusalView::UntrustedIdentity { trust_level }) == Some(
            "untrusted_identity"@,
        ),
        refusal_label(RefusalView::InvalidServiceAccount) == Some("invalid_service_account"@),
        refusal_label(RefusalView::NotAllowed) == Some("sa_not_allowed"@),
        refusal_label(RefusalView::EmptyIdentity { reason }) == Some("empty_identity"@),
        refusal_label(RefusalView::SubstitutionFailed { field }) == Some("substitution_failed"@),
{
}

/// What is told of a refusal is what it holds.
pub proof fn refusals_show_what_they_hold(r: Refusal)
    ensures
        match r {
            Refusal::UnknownTarget { name } => r@ == (RefusalView::UnknownTarget { name: name@ }),
            Refusal::UntrustedIdentity { trust_level } => r@ == (RefusalView::UntrustedIdentity {
                trust_level: trust_level@,
            }),
            Refusal::InvalidServiceAccount => r@ == RefusalView::InvalidServiceAccount,
            Refusal::NotAllowed => r@ == RefusalView::NotAllowed,
            Refusal::EmptyIdentity { reason } => r@ == (RefusalView::EmptyIdentity {
                reason: reason@,
            }),
            Refusal::SubstitutionFailed { field } => r@ == (RefusalView::SubstitutionFailed {
                field: field@,
            }),
        },
{
}

// How long a credential lives.

/// Whether a time to live is within what is left of a token's life and within the
/// operator's limit in milliseconds, where less than a second counts as one.
pub open spec fn is_within_limits(ttl: u64, token_ttl: u64, max_cache_ttl_ms: u64) -> bool {
    &&& ttl <= token_ttl
    &&& max_cache_ttl_ms >= 1000 ==> ttl * 1000 <= max_cache_ttl_ms
    &&& max_cache_ttl_ms < 1000 ==> ttl <= 1
}

/// A credential of either kind lives as long as what is left of its token's life
/// and the target's limit allow, and no longer.
pub proof fn credentials_live_as_long_as_both_limits_allow(
    kind: TokenKind,
    target: TargetConfig,
    sa: Seq<char>,
    subject: Option<String>,
    token: Seq<char>,
    token_ttl: u64,
    issued_at: Seq<char>,
)
    ensures
        ({
            let ttl = credential(
                kind,
                target,
                sa,
                subject,
                token,
                token_ttl,
                issued_at,
            ).ttl_seconds;
            &&& is_within_limits(ttl, token_ttl, target.max_cache_ttl_ms)
            &&& forall|longer: u64| #[trigger]
                is_within_limits(longer, token_ttl, target.max_cache_ttl_ms) ==> longer <= ttl
        }),
{
    caps_are_the_longest_within_limits(token_ttl, target.max_cache_ttl_ms);
}

/// The capped time to live is the longest within both limits.
pub proof fn caps_are_the_longest_within_limits(token_ttl: u64, max_cache_ttl_ms: u64)
    ensures
        is_within_limits(capped_ttl(token_ttl, max_cache_ttl_ms), token_ttl, max_cache_ttl_ms),
        forall|longer: u64| #[trigger]
            is_within_limits(longer, token_ttl, max_cache_ttl_ms) ==> longer <= capped_ttl(
                token_ttl,
                max_cache_ttl_ms,
            ),
{
}

/// What is left of a token's life: the seconds up to its expiry, and one where
/// there are none.
pub open spec fn is_life_left(life: u64, until: i64, now: i64) -> bool {
    life == if until > now {
        until - now
    } else {
        1
    }
}

/// The credential that comes of a reply, whatever the kind: it lives within what
/// is left of the token's life, or of the lifetime that is assumed of an ID token
/// that does not tell, and within the target's limit; as long as both allow.
pub proof fn issued_credentials_keep_both_limits(
    target: TargetConfig,
    sa: Seq<char>,
    subject: Option<String>,
    decoded: DecodedReply,
    now: i64,
    issued_at: Seq<char>,
)
    ensures
        issue_outcome(target, sa, subject, decoded, now, issued_at) matches Ok(issued) ==> exists|
            life: u64,
        |
            {
                &&& #[trigger] is_within_limits(issued.ttl_seconds, life, target.max_cache_ttl_ms)
                &&& forall|longer: u64| #[trigger]
                    is_within_limits(longer, life, target.max_cache_ttl_ms) ==> longer
                        <= issued.ttl_seconds
                &&& match target.token_kind {
                    TokenKind::AccessToken => is_life_left(
                        life,
                        rfc3339_timestamp(decoded.as_access_token->Ok_0.expire_time@)->Ok_0,
                        now,
                    ),
                    TokenKind::IdToken => match crate::client::jwt_expiry(
                        decoded.as_id_token->Ok_0@,
                    ) {
                        Some(until) => is_life_left(life, until, now),
                        None => life == target.id_token_assumed_ttl_seconds,
                    },
                }
            },
{
    if issue_outcome(target, sa, subject, decoded, now, issued_at) is Ok {
        let life = match target.token_kind {
            TokenKind::AccessToken => seconds_until(
                rfc3339_timestamp(decoded.as_access_token->Ok_0.expire_time@)->Ok_0,
                now,
            ),
            TokenKind::IdToken => match crate::client::jwt_expiry(decoded.as_id_token->Ok_0@) {
                Some(until) => seconds_until(until, now),
                None => target.id_token_assumed_ttl_seconds,
            },
        };
        let token = match target.token_kind {
            TokenKind::AccessToken => decoded.as_access_token->Ok_0.access_token@,
            TokenKind::IdToken => decoded.as_id_token->Ok_0@,
        };
        credentials_live_as_long_as_both_limits_allow(
            target.token_kind,
            target,
            sa,
            subject,
            token,
            life,
            issued_at,
        );
        let issued = issue_outcome(target, sa, subject, decoded, now, issued_at)->Ok_0;
        assert(is_within_limits(issued.ttl_seconds, life, target.max_cache_ttl_ms));
    }
}

// What a credential holds.

pub(crate) proof fn lemma_note_names()
    ensures
        "gcp.service_account"@ != "gcp.token_kind"@,
        "gcp.service_account"@ != "gcp.scopes"@,
        "gcp.service_account"@ != "gcp.caller_subject"@,
        "gcp.token_kind"@ != "gcp.scopes"@,
        "gcp.token_kind"@ != "gcp.caller_subject"@,
        "gcp.scopes"@ != "gcp.caller_subject"@,
{
    reveal_strlit("gcp.service_account");
    reveal_strlit("gcp.token_kind");
    reveal_strlit("gcp.scopes");
    reveal_strlit("gcp.caller_subject");
    assert("gcp.service_account"@.len() == 19 && "gcp.token_kind"@.len() == 14);
    assert("gcp.scopes"@.len() == 10 && "gcp.caller_subject"@.len() == 18);
}

/// The token is the value of a credential, and its only part, under the name of
/// the kind; there is no lease; and the time of issue is the one given.
pub proof fn credentials_hold_the_token_under_its_kind(
    target: TargetConfig,
    sa: Seq<char>,
    subject: Option<String>,
    token: Seq<char>,
    token_ttl: u64,
    issued_at: Seq<char>,
)
    ensures
        ({
            let access = credential(
                TokenKind::AccessToken,
                target,
                sa,
                subject,
                token,
                token_ttl,
                issued_at,
            );
            let id = credential(
                TokenKind::IdToken,
                target,
                sa,
                subject,
                token,
                token_ttl,
                issued_at,
            );
            &&& access.value == Some(token)
            &&& id.value == Some(token)
            &&& access.parts == Map::<Seq<char>, Seq<char>>::empty().insert(
                "access_token"@,
                token,
            )
            &&& id.parts == Map::<Seq<char>, Seq<char>>::empty().insert("id_token"@, token)
            &&& access.lease_id is None
            &&& id.lease_id is None
            &&& access.issued_at == issued_at
            &&& id.issued_at == issued_at
            &&& access.metadata["gcp.token_kind"@] == "access_token"@
            &&& id.metadata["gcp.token_kind"@] == "id_token"@
        }),
{
    lemma_note_names();
}

/// What is noted about a credential: the account, the kind, the scopes of the
/// target where it has any, in order and with a space between them, and the label
/// of the caller's subject where there is one; and nothing else.
pub proof fn credentials_note_account_kind_scopes_and_subject(
    kind: TokenKind,
    target: TargetConfig,
    sa: Seq<char>,
    subject: Option<String>,
    token: Seq<char>,
    token_ttl: u64,
    issued_at: Seq<char>,
)
    ensures
        ({
            let notes = credential(
                kind,
                target,
                sa,
                subject,
                token,
                token_ttl,
                issued_at,
            ).metadata;
            &&& notes.dom().contains("gcp.service_account"@)
            &&& notes["gcp.service_account"@] == sa
            &&& notes.dom().contains("gcp.token_kind"@)
            &&& notes.dom().contains("gcp.scopes"@) <==> target.scopes@.len() > 0
            &&& target.scopes@.len() > 0 ==> notes["gcp.scopes"@] == joined(target.scopes@, " "@)
            &&& notes.dom().contains("gcp.caller_subject"@) <==> subject is Some
            &&& subject matches Some(s) ==> notes["gcp.caller_subject"@] == subject_label(s@)
            &&& forall|name: Seq<char>| #[trigger]
                notes.dom().contains(name) ==> name == "gcp.service_account"@ || name
                    == "gcp.token_kind"@ || name == "gcp.scopes"@ || name == "gcp.caller_subject"@
        }),
{
    lemma_note_names();
}

/// What comes of a reply for a target: its reading as the kind that the target
/// mints decides, and no other; the credential is for the granted account, the
/// caller's subject, the token in the reply and the time given.
pub proof fn replies_are_read_as_the_targets_kind(
    target: TargetConfig,
    sa: Seq<char>,
    subject: Option<String>,
    decoded: DecodedReply,
    now: i64,
    issued_at: Seq<char>,
)
    ensures
        ({
            let outcome = issue_outcome(target, sa, subject, decoded, now, issued_at);
            match target.token_kind {
                TokenKind::AccessToken => match decoded.as_access_token {
                    Err(error) => outcome == Err::<IssuedCredentialView, CredentialErrorView>(
                        undecodable("generateAccessToken"@, error@),
                    ),
                    Ok(reply) => match rfc3339_timestamp(reply.expire_time@) {
                        Err(error) => outcome == Err::<IssuedCredentialView, CredentialErrorView>(
                            bad_expiry(reply.expire_time@, error),
                        ),
                        Ok(_) => {
                            &&& outcome matches Ok(issued)
                            &&& issued.value == Some(reply.access_token@)
                            &&& issued.parts == Map::<Seq<char>, Seq<char>>::empty().insert(
                                "access_token"@,
                                reply.access_token@,
                            )
                            &&& issued.metadata["gcp.service_account"@] == sa
                            &&& issued.metadata["gcp.token_kind"@] == "access_token"@
                            &&& issued.issued_at == issued_at
                        },
                    },
                },
                TokenKind::IdToken => match decoded.as_id_token {
                    Err(error) => outcome == Err::<IssuedCredentialView, CredentialErrorView>(
                        undecodable("generateIdToken"@, error@),
                    ),
                    Ok(token) => {
                        &&& outcome matches Ok(issued)
                        &&& issued.value == Some(token@)
                        &&& issued.parts == Map::<Seq<char>, Seq<char>>::empty().insert(
                            "id_token"@,
                            token@,
                        )
                        &&& issued.metadata["gcp.service_account"@] == sa
                        &&& issued.metadata["gcp.token_kind"@] == "id_token"@
                        &&& issued.issued_at == issued_at
                    },
                },
            }
        }),
{
    lemma_note_names();
}

/// What is told of a credential is what it holds.
pub proof fn credentials_show_what_they_hold(issued: IssuedCredential)
    ensures
        issued.value matches Some(value) ==> issued@.value == Some(value@),
        issued.value is None ==> issued@.value is None,
        issued@.ttl_seconds == issued.ttl_seconds,
        issued.lease_id matches Some(lease) ==> issued@.lease_id == Some(lease@),
        issued.lease_id is None ==> issued@.lease_id is None,
        issued@.issued_at == issued.issued_at@,
        issued@.parts.dom() == issued.parts@.dom(),
        forall|name: Seq<char>| #[trigger]
            issued.parts@.dom().contains(name) ==> issued@.parts[name] == issued.parts@[name]@,
        issued@.metadata.dom() == issued.metadata@.dom(),
        forall|name: Seq<char>| #[trigger]
            issued.metadata@.dom().contains(name) ==> issued@.metadata[name]
                == issued.metadata@[name]@,
{
    assert(issued@.parts.dom() =~= issued.parts@.dom());
    assert(issued@.metadata.dom() =~= issued.metadata@.dom());
}

/// A result is an outcome where both are the same credential or the same failure.
pub proof fn outcomes_are_matched_in_full(
    r: Result<IssuedCredential, CredentialError>,
    outcome: Result<IssuedCredentialView, CredentialErrorView>,
)
    ensures
        is_outcome(r, outcome) <==> match (r, outcome) {
            (Ok(issued), Ok(expected)) => issued@ == expected,
            (Err(e), Err(expected)) => e@ == expected,
            _ => false,
        },
{
}

/// A credential is of a kind where it says so and has a part of that name alone.
pub proof fn kinds_are_told_by_note_and_part(issued: IssuedCredentialView)
    ensures
        is_of_kind(issued, TokenKind::AccessToken) ==> issued.metadata["gcp.token_kind"@]
            == "access_token"@ && issued.parts.dom().contains("access_token"@)
            && !issued.parts.dom().contains("id_token"@),
        is_of_kind(issued, TokenKind::IdToken) ==> issued.metadata["gcp.token_kind"@]
            == "id_token"@ && issued.parts.dom().contains("id_token"@)
            && !issued.parts.dom().contains("access_token"@),
{
    reveal_strlit("access_token");
    reveal_strlit("id_token");
    assert("access_token"@.len() == 12 && "id_token"@.len() == 8);
}

// Labels.

/// A subject of printable characters is its own label, up to 256 characters.
pub proof fn labels_keep_the_first_256_characters(subject: Seq<char>)
    requires
        forall|i: int|
            0 <= i < subject.len() ==> '\u{1f}' < (#[trigger] subject[i]) && !('\u{7f}'
                <= subject[i] && subject[i] <= '\u{9f}'),
    ensures
        subject.len() <= 256 ==> subject_label(subject) == subject,
        subject.len() > 256 ==> subject_label(subject) == subject.take(256),
{
    assert forall|i: int| 0 <= i < subject.len() implies !is_control_char(
        #[trigger] subject[i],
    ) by {}
    super::lemma_no_controls(subject);
}

/// A control character, wherever it stands, makes no difference to the label.
pub proof fn labels_pass_over_control_characters(before: Seq<char>, c: char, after: Seq<char>)
    requires
        c <= '\u{1f}' || ('\u{7f}' <= c && c <= '\u{9f}'),
    ensures
        subject_label(before + seq![c] + after) == subject_label(before + after),
{
    lemma_control_dropped(before, c, after);
}

proof fn lemma_control_dropped(before: Seq<char>, c: char, after: Seq<char>)
    requires
        is_control_char(c),
    ensures
        without_controls(before + seq![c] + after) == without_controls(before + after),
    decreases after.len(),
{
    reveal(Seq::filter);
    let long = before + seq![c] + after;
    let short = before + after;
    if after.len() == 0 {
        assert(long.drop_last() =~= before);
        assert(short =~= before);
    } else {
        let rest = after.drop_last();
        lemma_control_dropped(before, c, rest);
        assert(long.drop_last() =~= before + seq![c] + rest);
        assert(short.drop_last() =~= before + rest);
        assert(long.last() == after.last() && short.last() == after.last());
    }
}

// The plugin.

/// How the plugin presents itself.
pub proof fn manifests_say_what_the_plugin_is(
    manifest: PluginManifest,
    version: Seq<char>,
    module: Seq<char>,
)
    requires
        is_manifest(manifest, version, module),
    ensures
        manifest.id@ == "dev.mcpg.credential.gcp-impersonation"@,
        manifest.version@ == version,
        manifest.name@ == "GCP Service-Account Impersonation"@,
        manifest.plugin_class == PluginClass::CredentialIssuer,
        manifest.protocol_version@ == "1.0"@,
        manifest.license is None,
        manifest.required_capabilities@.len() == 0,
        manifest.tags@.len() == 0,
        manifest.provides@.len() == 0,
        manifest.provides_schemes@.len() == 0,
        manifest.backend_profile is None,
{
}

/// The prefix of the plugin's modules is what stands before the first `::`.
pub proof fn module_prefixes_end_before_the_first_separator(
    manifest: PluginManifest,
    version: Seq<char>,
    first: Seq<char>,
    after: Seq<char>,
)
    requires
        forall|i: int| 0 <= i < first.len() ==> #[trigger] first[i] != ':',
    ensures
        is_manifest(manifest, version, first + "::"@ + after) ==> manifest.module_path_prefix@
            == first,
        is_manifest(manifest, version, first) ==> manifest.module_path_prefix@ == first,
{
    reveal_strlit("::");
    let root = manifest.module_path_prefix@;
    let long = first + "::"@ + after;
    if is_manifest(manifest, version, long) {
        assert(is_path_root(long, root));
        assert(long[first.len() as int] == ':' && long[first.len() as int + 1] == ':');
        assert(separator_at(long, first.len() as int));
        if root.len() < first.len() {
            assert(separator_at(long, root.len() as int));
            assert(long[root.len() as int] == first[root.len() as int]);
        }
        assert(root.len() == first.len());
        assert(root =~= long.subrange(0, root.len() as int));
        assert(root =~= first);
    }
    if is_manifest(manifest, version, first) {
        assert(is_path_root(first, root));
        if root.len() < first.len() {
            assert(separator_at(first, root.len() as int));
            assert(first[root.len() as int] == ':');
        }
        assert(root =~= first.subrange(0, root.len() as int));
        assert(root =~= first);
    }
}

/// The plugin's client is that of its configuration.
pub proof fn plugins_call_what_they_are_configured_for(
    plugin: GcpImpersonationPlugin,
    version: Seq<char>,
    module: Seq<char>,
)
    requires
        is_plugin(plugin, version, module),
    ensures
        is_manifest(plugin.manifest, version, module),
        plugin.client.iam_endpoint@ == without_trailing_slashes(
            plugin.config.iam_credentials_endpoint@,
        ),
        plugin.client.refresh_buffer_ms == plugin.config.refresh_buffer_ms,
        plugin.client.base == plugin.config.base_auth,
{
}

/// What is said where the plugin refuses to load.
pub proof fn refusals_to_load_tell_the_fault(e: ConfigErrorView)
    ensures
        load_refusal(e) == "gcp-impersonation config parse failed: "@ + config_error_text(e)
            + ". A misconfigured credential issuer is a security hole; refusing to load."@,
{
}

/// The time of issue has the form of a time in UTC, to the second.
pub proof fn times_of_issue_are_in_utc(text: Seq<char>)
    requires
        is_utc_time(text),
    ensures
        text.len() >= 20,
        text.last() == 'Z',
        text[text.len() - 10] == 'T',
        text[text.len() - 4] == ':',
        text[text.len() - 7] == ':',
        text[text.len() - 13] == '-',
        text[text.len() - 16] == '-',
{
}

} // verus!
