//! What the operations hand back, told of what they are given.

use crate::client::{
    accept_access_token, accept_access_token_at, accept_id_token, accept_id_token_at,
    check_metadata_answer, encode_sa, expire_time_to_ttl, id_token_ttl, invalidate_base,
    jwt_expiry, map_gcp_error, read_reply, store_fetched, AccessTokenReply, BaseTokenSource,
    BearerStep, BodyValue, CachedBaseToken, GcpClient, IamRequest, IssuedToken, MetadataToken,
    PostIam, PostStep,
};
use crate::config::{BaseAuth, IdentityMapping, TargetConfig, TokenKind};
use crate::identity_mapping::{is_sa_email, resolve_field, resolve_target, Resolution};
use crate::outside::{json_inner_text, rfc3339_timestamp};
use crate::plugin::{
    assemble, finish, finish_access_token, finish_id_token, DecodedReply, GcpImpersonationPlugin,
    Grant, Refusal,
};
use crate::protocol::{CredentialError, IssuedCredential, PluginIdentity};
use crate::text::{decimal, without_trailing_slashes};
use vstd::prelude::*;

verus! {

// Callers.

/// Whether a text was found at a position of a list: the one that stands there,
/// and none behind the end.
pub open spec fn is_entry(r: Option<String>, list: Seq<String>, n: usize) -> bool {
    &&& n < list.len() ==> r is Some && r->0@ == list[n as int]@
    &&& n >= list.len() ==> r is None
}

/// `roles[N]`, `groups[N]` and `scopes[N]` resolve to the entry of that list at
/// the position `N`, whatever the position.
pub proof fn positions_resolve_to_their_entries(
    field: &str,
    identity: &PluginIdentity,
    n: usize,
    r: Option<String>,
)
    requires
        call_ensures(resolve_field, (field, identity), r),
    ensures
        field@ == "roles"@ + "["@ + decimal(n as nat) + "]"@ ==> is_entry(r, identity.roles@, n),
        field@ == "groups"@ + "["@ + decimal(n as nat) + "]"@ ==> is_entry(r, identity.groups@, n),
        field@ == "scopes"@ + "["@ + decimal(n as nat) + "]"@ ==> is_entry(r, identity.scopes@, n),
{
    super::callers::roles_have_the_entry_at_their_position(n, *identity);
    super::callers::groups_have_the_entry_at_their_position(n, *identity);
    super::callers::scopes_have_the_entry_at_their_position(n, *identity);
}

/// The other fields resolve to what the caller has under their name.
pub proof fn names_resolve_to_their_fields(
    field: &str,
    identity: &PluginIdentity,
    key: Seq<char>,
    r: Option<String>,
)
    requires
        call_ensures(resolve_field, (field, identity), r),
    ensures
        field@ == "kind"@ ==> r is Some && r->0@ == identity.kind@,
        field@ == "trust_level"@ ==> r is Some && r->0@ == identity.trust_level@,
        field@ == "subject_id"@ ==> {
            &&& r is Some <==> identity.subject_id is Some
            &&& r is Some ==> r->0@ == identity.subject_id->0@
        },
        field@ == "auth_provider"@ ==> {
            &&& r is Some <==> identity.auth_provider is Some
            &&& r is Some ==> r->0@ == identity.auth_provider->0@
        },
        field@ == "attributes."@ + key ==> {
            &&& r is Some <==> identity.attributes@.dom().contains(key)
            &&& r is Some ==> r->0@ == identity.attributes@[key]@
        },
{
    super::callers::single_fields_have_the_value_of_their_name(*identity);
    super::callers::attributes_are_read_by_name(key, *identity);
}

/// Whether a resolution is an account, and taken from the caller or not.
pub open spec fn is_account(r: Resolution, account: Seq<char>, from_caller: bool) -> bool {
    r matches Resolution::Target { email, identity_derived } && email@ == account
        && identity_derived == from_caller
}

/// A caller who has a role gets the account that the first role names, and one
/// who has a subject the account that it names, whatever the operator's account
/// is; the operator's account is for those who have none.
pub proof fn callers_with_the_field_get_their_own_account(
    identity: &PluginIdentity,
    target: &TargetConfig,
    r: Resolution,
)
    requires
        call_ensures(resolve_target, (identity, target), r),
    ensures
        target.identity_mapping == IdentityMapping::Static ==> is_account(
            r,
            target.service_account@,
            false,
        ),
        target.identity_mapping == IdentityMapping::FromRole ==> {
            let has_role = identity.roles@.len() > 0 && identity.roles@[0]@.len() > 0;
            &&& has_role ==> is_account(r, identity.roles@[0]@, true)
            &&& !has_role && target.service_account@.len() > 0 ==> is_account(
                r,
                target.service_account@,
                false,
            )
            &&& !has_role && target.service_account@.len() == 0 ==> r is EmptyDerived
        },
        target.identity_mapping == IdentityMapping::SubjectId ==> {
            let has_subject = identity.subject_id is Some && identity.subject_id->0@.len() > 0;
            &&& has_subject ==> is_account(r, identity.subject_id->0@, true)
            &&& !has_subject && target.service_account@.len() > 0 ==> is_account(
                r,
                target.service_account@,
                false,
            )
            &&& !has_subject && target.service_account@.len() == 0 ==> r is EmptyDerived
        },
{
    if target.identity_mapping == IdentityMapping::FromRole {
        super::callers::role_mapping_selects_the_first_role(*identity, *target);
    }
    if target.identity_mapping == IdentityMapping::SubjectId {
        super::callers::subject_mapping_selects_the_subject(*identity, *target);
    }
}

/// Two targets that differ in the operator's account alone resolve a caller who
/// has the field to the same account.
pub proof fn the_operators_account_makes_no_difference_to_a_derived_one(
    identity: &PluginIdentity,
    a: &TargetConfig,
    b: &TargetConfig,
    r: Resolution,
    s: Resolution,
)
    requires
        call_ensures(resolve_target, (identity, a), r),
        call_ensures(resolve_target, (identity, b), s),
        a.identity_mapping == b.identity_mapping,
        a.service_account_template == b.service_account_template,
        r matches Resolution::Target { identity_derived: true, .. },
    ensures
        r matches Resolution::Target { email, .. } && is_account(s, email@, true),
{
    super::callers::derived_accounts_ignore_the_fallback(*identity, *a, *b);
}

// The base token.

/// The URL from which the base token is fetched names the endpoint and the
/// account that are configured.
pub proof fn base_tokens_are_fetched_for_the_configured_account(
    client: &GcpClient,
    r: BaseTokenSource,
)
    requires
        call_ensures(GcpClient::fetch_base_token, (client,), r),
    ensures
        match client.base {
            BaseAuth::MetadataServer { endpoint, service_account } => {
                &&& r matches BaseTokenSource::Metadata { url }
                &&& url@ == without_trailing_slashes(endpoint@)
                    + "/computeMetadata/v1/instance/service-accounts/"@ + service_account@
                    + "/token"@
            },
            BaseAuth::StaticAccessToken { access_token } => {
                &&& r matches BaseTokenSource::Token(cached)
                &&& cached.token@ == access_token@
                &&& cached.expires_at_ns is None
            },
        },
{
}

/// Clients that are configured for two accounts fetch from two URLs.
pub proof fn two_accounts_are_fetched_from_two_urls(
    a: &GcpClient,
    b: &GcpClient,
    r: BaseTokenSource,
    s: BaseTokenSource,
)
    requires
        call_ensures(GcpClient::fetch_base_token, (a,), r),
        call_ensures(GcpClient::fetch_base_token, (b,), s),
        a.base matches BaseAuth::MetadataServer { endpoint, .. } && (
        b.base matches BaseAuth::MetadataServer { endpoint: other, .. } && endpoint@ == other@),
        a.base->service_account@ != b.base->service_account@,
    ensures
        r->url@ != s->url@,
{
    if r->url@ == s->url@ {
        super::calls::metadata_urls_tell_accounts_apart(
            a.base->endpoint@,
            a.base->service_account@,
            b.base->service_account@,
        );
    }
}

/// Whether a cache holds a token that may be used at `now_ns`: one that never
/// expires, or not within the refresh buffer.
pub open spec fn may_be_used(
    cache: Option<CachedBaseToken>,
    refresh_buffer_ms: u64,
    now_ns: u64,
) -> bool {
    cache matches Some(cached) && (cached.expires_at_ns is None || now_ns + refresh_buffer_ms
        * 1_000_000 < cached.expires_at_ns->0)
}

/// Whether a step is what has to be done for the base token without a cache, and
/// what the cache holds before and after it.
pub open spec fn is_from_its_source(
    client: GcpClient,
    step: BearerStep,
    before: Option<CachedBaseToken>,
    after: Option<CachedBaseToken>,
) -> bool {
    match client.base {
        BaseAuth::StaticAccessToken { access_token } => {
            &&& step matches BearerStep::Bearer(token)
            &&& token@ == access_token@
            &&& after matches Some(cached)
            &&& cached.token@ == access_token@
            &&& cached.expires_at_ns is None
        },
        BaseAuth::MetadataServer { endpoint, service_account } => {
            &&& step matches BearerStep::Fetch { url }
            &&& url@ == without_trailing_slashes(endpoint@)
                + "/computeMetadata/v1/instance/service-accounts/"@ + service_account@ + "/token"@
            &&& is_same_token(before, after)
        },
    }
}

/// Whether two caches hold the same token, or none.
pub open spec fn is_same_token(a: Option<CachedBaseToken>, b: Option<CachedBaseToken>) -> bool {
    match (a, b) {
        (Some(x), Some(y)) => x.token@ == y.token@ && x.expires_at_ns == y.expires_at_ns,
        (None, None) => true,
        _ => false,
    }
}

/// A token in the cache is used while it may be, unless a refresh is forced;
/// else it comes from its source.
pub proof fn cached_tokens_are_used_while_they_may_be(
    client: &GcpClient,
    cache: &mut Option<CachedBaseToken>,
    force_refresh: bool,
    now_ns: u64,
    r: BearerStep,
)
    requires
        call_ensures(GcpClient::base_bearer, (client, cache, force_refresh, now_ns), r),
    ensures
        ({
            let usable = !force_refresh && may_be_used(
                *old(cache),
                client.refresh_buffer_ms,
                now_ns,
            );
            &&& usable ==> {
                &&& r matches BearerStep::Bearer(token)
                &&& token@ == old(cache)->0.token@
                &&& is_same_token(*old(cache), *final(cache))
            }
            &&& !usable ==> is_from_its_source(*client, r, *old(cache), *final(cache))
        }),
{
}

/// A request that is sent for the first time may take the token out of the cache;
/// one that is sent again may not.
pub proof fn tokens_are_taken_anew_for_a_retry(
    post: &PostIam,
    client: &GcpClient,
    cache: &mut Option<CachedBaseToken>,
    now_ns: u64,
    r: BearerStep,
)
    requires
        call_ensures(PostIam::bearer, (post, client, cache, now_ns), r),
    ensures
        !post.retried && may_be_used(*old(cache), client.refresh_buffer_ms, now_ns) ==> {
            &&& r matches BearerStep::Bearer(token)
            &&& token@ == old(cache)->0.token@
            &&& is_same_token(*old(cache), *final(cache))
        },
        post.retried || !may_be_used(*old(cache), client.refresh_buffer_ms, now_ns)
            ==> is_from_its_source(*client, r, *old(cache), *final(cache)),
{
}

/// A token that was fetched is handed on and cached up to its expiry; a reply
/// that could not be read leaves the cache as it was.
pub proof fn fetched_tokens_are_cached(
    cache: &mut Option<CachedBaseToken>,
    decoded: Result<MetadataToken, String>,
    now_ns: u64,
    r: Result<String, CredentialError>,
)
    requires
        call_ensures(store_fetched, (cache, decoded, now_ns), r),
    ensures
        match decoded {
            Ok(token) => {
                &&& r matches Ok(bearer)
                &&& bearer@ == token.access_token@
                &&& *final(cache) matches Some(cached)
                &&& cached.token@ == token.access_token@
                &&& token.expires_in == 0 ==> cached.expires_at_ns is None
                &&& token.expires_in > 0 ==> {
                    &&& cached.expires_at_ns matches Some(at)
                    &&& at == now_ns + token.expires_in * 1_000_000_000
                }
            },
            Err(error) => {
                &&& r matches Err(CredentialError::Backend { reason })
                &&& reason@ == "parse metadata token response: "@ + error@
                &&& *final(cache) == *old(cache)
            },
        },
{
    if let Ok(token) = decoded {
        super::calls::fetched_tokens_expire_after_their_lifetime(token, now_ns);
    }
}

/// What was invalidated is no longer cached.
pub proof fn invalidated_tokens_are_forgotten(cache: &mut Option<CachedBaseToken>)
    requires
        call_ensures(invalidate_base, (cache,), ()),
    ensures
        *final(cache) is None,
{
}

/// The metadata server's answer counts where it reports success.
pub proof fn metadata_answers_count_where_they_report_success(
    sent: Result<u16, String>,
    r: Result<(), CredentialError>,
)
    requires
        call_ensures(check_metadata_answer, (sent,), r),
    ensures
        match sent {
            Ok(status) => {
                &&& 200 <= status <= 299 <==> r is Ok
                &&& r matches Err(e) ==> (e matches CredentialError::Backend { reason } && reason@
                    == "metadata server returned HTTP "@ + decimal(status as nat))
            },
            Err(error) => {
                &&& r matches Err(CredentialError::Backend { reason })
                &&& reason@ == "metadata server unreachable: "@ + error@
            },
        },
{
    super::calls::metadata_answers_count_from_200_to_299(sent);
}

// Requests.

/// Whether a request sends a delegation chain: each delegate at its place, as a
/// resource name, and nothing where there are no delegates.
pub open spec fn sends_the_chain(request: IamRequest, delegates: Seq<String>) -> bool {
    &&& request.body@.dom().contains("delegates"@) <==> delegates.len() > 0
    &&& delegates.len() > 0 ==> {
        &&& request.body@["delegates"@] matches BodyValue::List(names)
        &&& names@.len() == delegates.len()
        &&& forall|i: int|
            0 <= i < delegates.len() ==> {
                let d = (#[trigger] delegates[i])@;
                &&& "projects/-/serviceAccounts/"@.is_prefix_of(d) ==> names@[i]@ == d
                &&& !"projects/-/serviceAccounts/"@.is_prefix_of(d) ==> names@[i]@
                    == "projects/-/serviceAccounts/"@ + d
            }
    }
}

/// Whether a member of a request is a list of texts.
pub open spec fn sends_list(request: IamRequest, name: Seq<char>, list: Seq<String>) -> bool {
    &&& request.body@.dom().contains(name)
    &&& request.body@[name] matches BodyValue::List(sent)
    &&& sent@.len() == list.len()
    &&& forall|i: int| 0 <= i < list.len() ==> (#[trigger] sent@[i])@ == list[i]@
}

/// Whether a member of a request is a text.
pub open spec fn sends_text(request: IamRequest, name: Seq<char>, text: Seq<char>) -> bool {
    &&& request.body@.dom().contains(name)
    &&& request.body@[name] matches BodyValue::Text(sent)
    &&& sent@ == text
}

proof fn lemma_sent(request: IamRequest, name: Seq<char>)
    requires
        request@.body.dom().contains(name),
    ensures
        request.body@.dom().contains(name),
        request@.body[name] == request.body@[name]@,
{
    super::calls::requests_show_what_they_hold(request);
}

proof fn lemma_chain(request: IamRequest, delegates: Seq<String>)
    requires
        super::calls::sends_delegates(request@.body, delegates),
    ensures
        sends_the_chain(request, delegates),
{
    super::calls::requests_show_what_they_hold(request);
    if delegates.len() > 0 {
        lemma_sent(request, "delegates"@);
        let value = request.body@["delegates"@];
        assert(value is List);
        let names = value->List_0;
        assert(value@ == crate::client::BodyValueView::List(crate::text::texts(names@)));
        super::texts::texts_keep_their_places(names@, None);
        assert forall|i: int| 0 <= i < delegates.len() implies {
            let d = (#[trigger] delegates[i])@;
            &&& "projects/-/serviceAccounts/"@.is_prefix_of(d) ==> names@[i]@ == d
            &&& !"projects/-/serviceAccounts/"@.is_prefix_of(d) ==> names@[i]@
                == "projects/-/serviceAccounts/"@ + d
        } by {
            assert(crate::text::texts(names@)[i] == names@[i]@);
        }
    }
}

/// The request for an ID token sends the audience, whether the email is wanted,
/// and the whole delegation chain.
pub proof fn id_token_requests_send_the_chain(
    client: &GcpClient,
    sa: &str,
    audience: &str,
    include_email: bool,
    delegates: &Vec<String>,
    r: IamRequest,
)
    requires
        call_ensures(
            GcpClient::generate_id_token,
            (client, sa, audience, include_email, delegates),
            r,
        ),
    ensures
        sends_text(r, "audience"@, audience@),
        r.body@.dom().contains("includeEmail"@),
        r.body@["includeEmail"@] == BodyValue::Flag(include_email),
        sends_the_chain(r, delegates@),
        forall|name: Seq<char>| #[trigger]
            r.body@.dom().contains(name) ==> name == "audience"@ || name == "includeEmail"@ || name
                == "delegates"@,
{
    super::calls::id_token_requests_carry_what_they_are_given(
        audience@,
        include_email,
        delegates@,
    );
    lemma_chain(r, delegates@);
    lemma_sent(r, "audience"@);
    lemma_sent(r, "includeEmail"@);
    super::calls::requests_show_what_they_hold(r);
    assert forall|name: Seq<char>| #[trigger] r.body@.dom().contains(name) implies name
        == "audience"@ || name == "includeEmail"@ || name == "delegates"@ by {
        assert(r@.body.dom().contains(name));
    }
}

/// The request for an access token sends the scopes, the lifetime where there is
/// one, and the whole delegation chain.
pub proof fn access_token_requests_send_the_chain(
    client: &GcpClient,
    sa: &str,
    scopes: &Vec<String>,
    lifetime_seconds: Option<u32>,
    delegates: &Vec<String>,
    r: IamRequest,
)
    requires
        call_ensures(
            GcpClient::generate_access_token,
            (client, sa, scopes, lifetime_seconds, delegates),
            r,
        ),
    ensures
        sends_list(r, "scope"@, scopes@),
        r.body@.dom().contains("lifetime"@) <==> lifetime_seconds is Some,
        lifetime_seconds matches Some(secs) ==> sends_text(
            r,
            "lifetime"@,
            decimal(secs as nat) + "s"@,
        ),
        sends_the_chain(r, delegates@),
        forall|name: Seq<char>| #[trigger]
            r.body@.dom().contains(name) ==> name == "scope"@ || name == "lifetime"@ || name
                == "delegates"@,
{
    super::calls::access_token_requests_carry_what_they_are_given(
        scopes@,
        lifetime_seconds,
        delegates@,
    );
    lemma_chain(r, delegates@);
    lemma_sent(r, "scope"@);
    super::calls::requests_show_what_they_hold(r);
    let sent = r.body@["scope"@]->List_0;
    super::texts::texts_keep_their_places(sent@, None);
    assert forall|i: int| 0 <= i < scopes@.len() implies (#[trigger] sent@[i])@ == scopes@[i]@ by {
        assert(crate::text::texts(sent@)[i] == sent@[i]@);
    }
    if lifetime_seconds is Some {
        lemma_sent(r, "lifetime"@);
    }
    assert forall|name: Seq<char>| #[trigger] r.body@.dom().contains(name) implies name
        == "scope"@ || name == "lifetime"@ || name == "delegates"@ by {
        assert(r@.body.dom().contains(name));
    }
}

/// A granted request is for the granted account, and sends the chain of the
/// target, of either kind.
pub proof fn granted_requests_send_the_chain_of_their_target(
    plugin: &GcpImpersonationPlugin,
    grant: &Grant,
    r: IamRequest,
)
    requires
        call_ensures(GcpImpersonationPlugin::request, (plugin, grant), r),
    ensures
        sends_the_chain(r, grant.target.delegates@),
        ({
            let account = plugin.client.iam_endpoint@ + "/v1/projects/-/serviceAccounts/"@
                + crate::client::encoded_segment(grant.service_account@);
            match grant.target.token_kind {
                TokenKind::AccessToken => r.url@ == account + ":generateAccessToken"@,
                TokenKind::IdToken => r.url@ == account + ":generateIdToken"@,
            }
        }),
        grant.target.token_kind == TokenKind::IdToken && grant.target.audience is Some
            ==> sends_text(r, "audience"@, grant.target.audience->0@),
        grant.target.token_kind == TokenKind::IdToken ==> r.body@["includeEmail"@]
            == BodyValue::Flag(grant.target.include_email),
        grant.target.token_kind == TokenKind::AccessToken ==> sends_list(
            r,
            "scope"@,
            grant.target.scopes@,
        ),
        grant.target.token_kind == TokenKind::AccessToken ==> {
            &&& r.body@.dom().contains("lifetime"@) <==> grant.target.lifetime_seconds is Some
            &&& grant.target.lifetime_seconds matches Some(secs) ==> sends_text(
                r,
                "lifetime"@,
                decimal(secs as nat) + "s"@,
            )
        },
{
    let endpoint = plugin.client.iam_endpoint@;
    super::calls::requests_ask_for_what_the_target_says(
        endpoint,
        *grant.target,
        grant.service_account@,
    );
    lemma_chain(r, grant.target.delegates@);
    super::calls::requests_show_what_they_hold(r);
    match grant.target.token_kind {
        TokenKind::AccessToken => {
            lemma_sent(r, "scope"@);
            let scopes = grant.target.scopes@;
            let sent = r.body@["scope"@]->List_0;
            super::texts::texts_keep_their_places(sent@, None);
            assert forall|i: int| 0 <= i < scopes.len() implies (#[trigger] sent@[i])@
                == scopes[i]@ by {
                assert(crate::text::texts(sent@)[i] == sent@[i]@);
            }
            if grant.target.lifetime_seconds is Some {
                lemma_sent(r, "lifetime"@);
            }
        },
        TokenKind::IdToken => {
            lemma_sent(r, "audience"@);
            lemma_sent(r, "includeEmail"@);
        },
    }
}

// Credentials.

/// Whether a lifetime is the longest within both limits: that of the token, and
/// that of the operator in whole seconds, which counts as one at least.
pub open spec fn is_longest_within_limits(ttl: u64, token_ttl: u64, max_ms: u64) -> bool {
    &&& ttl <= token_ttl
    &&& ttl <= 1 || ttl * 1000 <= max_ms
    &&& ttl == token_ttl || (ttl >= 1 && (ttl + 1) * 1000 > max_ms)
}

/// A credential of either kind lives as long as both limits allow, holds the
/// token, and is for the granted account.
pub proof fn assembled_credentials_keep_both_limits(
    kind: TokenKind,
    grant: &Grant,
    identity: &PluginIdentity,
    issued: IssuedToken,
    issued_at: String,
    r: IssuedCredential,
)
    requires
        call_ensures(assemble, (kind, grant, identity, issued, issued_at), r),
    ensures
        is_longest_within_limits(
            r.ttl_seconds,
            issued.ttl_seconds,
            grant.target.max_cache_ttl_ms,
        ),
        r.value is Some && r.value->0@ == issued.token@,
        r.lease_id is None,
        r.issued_at@ == issued_at@,
        r@.metadata["gcp.service_account"@] == grant.service_account@,
        kind == TokenKind::AccessToken ==> r@.parts == Map::<Seq<char>, Seq<char>>::empty().insert(
            "access_token"@,
            issued.token@,
        ),
        kind == TokenKind::IdToken ==> r@.parts == Map::<Seq<char>, Seq<char>>::empty().insert(
            "id_token"@,
            issued.token@,
        ),
{
    super::credentials::credentials_hold_the_token_under_its_kind(
        *grant.target,
        grant.service_account@,
        identity.subject_id,
        issued.token@,
        issued.ttl_seconds,
        issued_at@,
    );
    super::credentials::credentials_note_account_kind_scopes_and_subject(
        kind,
        *grant.target,
        grant.service_account@,
        identity.subject_id,
        issued.token@,
        issued.ttl_seconds,
        issued_at@,
    );
}

/// The same token lives as long under either kind.
pub proof fn the_kind_makes_no_difference_to_the_lifetime(
    grant: &Grant,
    identity: &PluginIdentity,
    issued: IssuedToken,
    issued_at: String,
    r: IssuedCredential,
    s: IssuedCredential,
)
    requires
        call_ensures(assemble, (TokenKind::AccessToken, grant, identity, issued, issued_at), r),
        call_ensures(assemble, (TokenKind::IdToken, grant, identity, issued, issued_at), s),
    ensures
        r.ttl_seconds == s.ttl_seconds,
{
}

/// Whether a failure is one of the far side, with a reason.
pub open spec fn is_backend(e: CredentialError, text: Seq<char>) -> bool {
    e matches CredentialError::Backend { reason } && reason@ == text
}

/// Whether a lifetime may be left of a token that expires at `until`, at a time
/// that is not before 1970.
pub open spec fn may_be_left(ttl: u64, until: i64) -> bool {
    &&& ttl >= 1
    &&& ttl == 1 || ttl <= until
}

/// The lifetime of a token is at least a second, and goes no further than its
/// expiry; where no expiry can be read, that is told, or the assumed one holds.
pub proof fn lifetimes_go_up_to_the_expiry(
    expire_time: &str,
    token: &str,
    assumed_ttl: u64,
    r: Result<u64, CredentialError>,
    s: u64,
)
    requires
        call_ensures(expire_time_to_ttl, (expire_time,), r),
        call_ensures(id_token_ttl, (token, assumed_ttl), s),
    ensures
        match rfc3339_timestamp(expire_time@) {
            Ok(until) => r is Ok && may_be_left(r->Ok_0, until),
            Err(error) => r is Err && is_backend(
                r->Err_0,
                "parse expireTime `"@ + expire_time@ + "`: "@ + error,
            ),
        },
        match jwt_expiry(token@) {
            Some(until) => may_be_left(s, until),
            None => s == assumed_ttl,
        },
{
}

/// An access token is accepted with the lifetime that is left of it.
pub proof fn access_tokens_are_accepted_up_to_their_expiry(
    decoded: Result<AccessTokenReply, String>,
    now: i64,
    r: Result<IssuedToken, CredentialError>,
    s: Result<IssuedToken, CredentialError>,
)
    requires
        call_ensures(accept_access_token_at, (decoded, now), r),
        call_ensures(accept_access_token, (decoded,), s),
    ensures
        match decoded {
            Err(error) => {
                let text = "parse generateAccessToken response: "@ + error@;
                &&& r is Err && is_backend(r->Err_0, text)
                &&& s is Err && is_backend(s->Err_0, text)
            },
            Ok(reply) => match rfc3339_timestamp(reply.expire_time@) {
                Err(error) => {
                    let text = "parse expireTime `"@ + reply.expire_time@ + "`: "@ + error;
                    &&& r is Err && is_backend(r->Err_0, text)
                    &&& s is Err && is_backend(s->Err_0, text)
                },
                Ok(until) => {
                    &&& r is Ok && r->Ok_0.token@ == reply.access_token@
                    &&& r->Ok_0.ttl_seconds == if until > now {
                        until - now
                    } else {
                        1
                    }
                    &&& s is Ok && s->Ok_0.token@ == reply.access_token@
                    &&& may_be_left(s->Ok_0.ttl_seconds, until)
                },
            },
        },
{
    reveal_strlit("parse generateAccessToken response: ");
    reveal_strlit("parse ");
    reveal_strlit("generateAccessToken");
    reveal_strlit(" response: ");
    assert("parse generateAccessToken response: "@ =~= "parse "@ + "generateAccessToken"@
        + " response: "@);
}

/// An ID token is accepted with the lifetime that is left of it, or the assumed
/// one.
pub proof fn id_tokens_are_accepted_up_to_their_expiry(
    decoded: Result<String, String>,
    assumed_ttl: u64,
    now: i64,
    r: Result<IssuedToken, CredentialError>,
    s: Result<IssuedToken, CredentialError>,
)
    requires
        call_ensures(accept_id_token_at, (decoded, assumed_ttl, now), r),
        call_ensures(accept_id_token, (decoded, assumed_ttl), s),
    ensures
        match decoded {
            Err(error) => {
                let text = "parse generateIdToken response: "@ + error@;
                &&& r is Err && is_backend(r->Err_0, text)
                &&& s is Err && is_backend(s->Err_0, text)
            },
            Ok(token) => {
                &&& r is Ok && r->Ok_0.token@ == token@
                &&& s is Ok && s->Ok_0.token@ == token@
                &&& match jwt_expiry(token@) {
                    Some(until) => {
                        &&& r->Ok_0.ttl_seconds == if until > now {
                            until - now
                        } else {
                            1
                        }
                        &&& may_be_left(s->Ok_0.ttl_seconds, until)
                    },
                    None => {
                        &&& r->Ok_0.ttl_seconds == assumed_ttl
                        &&& s->Ok_0.ttl_seconds == assumed_ttl
                    },
                }
            },
        },
{
    reveal_strlit("parse generateIdToken response: ");
    reveal_strlit("parse ");
    reveal_strlit("generateIdToken");
    reveal_strlit(" response: ");
    assert("parse generateIdToken response: "@ =~= "parse "@ + "generateIdToken"@
        + " response: "@);
}

/// Whether a credential is for a token and a grant: it holds the token, notes the
/// account, and lives no longer than the target allows.
pub open spec fn is_credential_for(r: IssuedCredential, grant: Grant, token: Seq<char>) -> bool {
    &&& r.value is Some && r.value->0@ == token
    &&& r.lease_id is None
    &&& r@.metadata["gcp.service_account"@] == grant.service_account@
    &&& r.ttl_seconds <= 1 || r.ttl_seconds * 1000 <= grant.target.max_cache_ttl_ms
}

proof fn lemma_kind_names()
    ensures
        "access_token"@ != "id_token"@,
{
    reveal_strlit("access_token");
    reveal_strlit("id_token");
    assert("access_token"@.len() == 12 && "id_token"@.len() == 8);
}

/// What is made of a reply for an access token is a credential for that token;
/// none is made of one that cannot be read.
pub proof fn access_tokens_become_credentials(
    grant: &Grant,
    identity: &PluginIdentity,
    decoded: Result<AccessTokenReply, String>,
    r: Result<IssuedCredential, CredentialError>,
)
    requires
        call_ensures(finish_access_token, (grant, identity, decoded), r),
    ensures
        r is Ok <==> decoded is Ok && rfc3339_timestamp(decoded->Ok_0.expire_time@) is Ok,
        r is Err ==> r->Err_0 is Backend,
        r is Ok ==> {
            &&& is_credential_for(r->Ok_0, *grant, decoded->Ok_0.access_token@)
            &&& may_be_left(
                r->Ok_0.ttl_seconds,
                rfc3339_timestamp(decoded->Ok_0.expire_time@)->Ok_0,
            )
            &&& r->Ok_0@.parts.dom().contains("access_token"@)
            &&& !r->Ok_0@.parts.dom().contains("id_token"@)
        },
{
    lemma_kind_names();
    super::credentials::lemma_note_names();
}

/// What is made of a reply for an ID token is a credential for that token; none
/// is made of one that cannot be read.
pub proof fn id_tokens_become_credentials(
    grant: &Grant,
    identity: &PluginIdentity,
    decoded: Result<String, String>,
    r: Result<IssuedCredential, CredentialError>,
)
    requires
        call_ensures(finish_id_token, (grant, identity, decoded), r),
    ensures
        r is Ok <==> decoded is Ok,
        r is Err ==> r->Err_0 is Backend,
        r is Ok ==> {
            &&& is_credential_for(r->Ok_0, *grant, decoded->Ok_0@)
            &&& match jwt_expiry(decoded->Ok_0@) {
                Some(until) => may_be_left(r->Ok_0.ttl_seconds, until),
                None => is_longest_within_limits(
                    r->Ok_0.ttl_seconds,
                    grant.target.id_token_assumed_ttl_seconds,
                    grant.target.max_cache_ttl_ms,
                ),
            }
            &&& r->Ok_0@.parts.dom().contains("id_token"@)
            &&& !r->Ok_0@.parts.dom().contains("access_token"@)
        },
{
    lemma_kind_names();
    super::credentials::lemma_note_names();
}

/// The reply is read as the kind that the target mints.
pub proof fn replies_become_credentials_of_the_targets_kind(
    grant: &Grant,
    identity: &PluginIdentity,
    decoded: DecodedReply,
    r: Result<IssuedCredential, CredentialError>,
)
    requires
        call_ensures(finish, (grant, identity, decoded), r),
    ensures
        grant.target.token_kind == TokenKind::AccessToken ==> {
            &&& r is Ok <==> decoded.as_access_token is Ok && rfc3339_timestamp(
                decoded.as_access_token->Ok_0.expire_time@,
            ) is Ok
            &&& r is Ok ==> is_credential_for(
                r->Ok_0,
                *grant,
                decoded.as_access_token->Ok_0.access_token@,
            )
        },
        grant.target.token_kind == TokenKind::IdToken ==> {
            &&& r is Ok <==> decoded.as_id_token is Ok
            &&& r is Ok ==> is_credential_for(r->Ok_0, *grant, decoded.as_id_token->Ok_0@)
        },
{
    super::credentials::lemma_note_names();
}

// Answers.

/// A request begins as one that was not sent.
pub proof fn requests_begin_unsent(r: PostIam)
    requires
        call_ensures(PostIam::begin, (), r),
    ensures
        !r.retried,
{
}

/// A request is sent again once, where the base token was refused, and then with
/// an empty cache; nothing else is changed by an answer.
pub proof fn refused_tokens_are_retried_once(
    post: &mut PostIam,
    cache: &mut Option<CachedBaseToken>,
    sent: Result<u16, String>,
    r: PostStep,
)
    requires
        call_ensures(PostIam::answered, (post, cache, sent), r),
    ensures
        match sent {
            Ok(status) => {
                &&& status == 401 && !old(post).retried ==> {
                    &&& r is Retry
                    &&& final(post).retried
                    &&& *final(cache) is None
                }
                &&& status != 401 || old(post).retried ==> {
                    &&& r matches PostStep::ReadBody { status: read }
                    &&& read == status
                    &&& *final(post) == *old(post)
                    &&& *final(cache) == *old(cache)
                }
            },
            Err(error) => {
                &&& r matches PostStep::Failed(e)
                &&& is_backend(e, "IAM Credentials endpoint unreachable: "@ + error@)
                &&& *final(post) == *old(post)
                &&& *final(cache) == *old(cache)
            },
        },
{
}

/// The body of an answer that reports success is the reply; any other answer is a
/// failure.
pub proof fn replies_are_the_bodies_of_successes(
    status: u16,
    body: Result<String, String>,
    r: Result<String, CredentialError>,
)
    requires
        call_ensures(read_reply, (status, body), r),
    ensures
        r is Ok <==> 200 <= status <= 299 && body is Ok,
        r is Ok ==> r->Ok_0@ == body->Ok_0@,
        200 <= status <= 299 && body is Err ==> is_backend(
            r->Err_0,
            "read IAM Credentials response: "@ + body->Err_0@,
        ),
{
}

/// The reason of a failure, whatever its kind.
pub open spec fn reason_of(e: CredentialError) -> Seq<char> {
    match e {
        CredentialError::NotAuthorized { reason } => reason@,
        CredentialError::Throttled { reason } => reason@,
        CredentialError::Misconfigured { reason } => reason@,
        CredentialError::Backend { reason } => reason@,
    }
}

/// An error reply is told by its HTTP status, and by the status in its body where
/// there is one; nothing else of the body is told.
pub proof fn error_replies_tell_their_statuses(code: u16, body: &str, r: CredentialError)
    requires
        call_ensures(map_gcp_error, (code, body), r),
    ensures
        ({
            let text = "IAM Credentials returned HTTP "@ + decimal(code as nat);
            match json_inner_text(body@, "error"@, "status"@) {
                Some(status) => {
                    &&& status.len() > 0 ==> reason_of(r) == text + " ("@ + status + ")"@
                    &&& status.len() == 0 ==> reason_of(r) == text
                },
                None => reason_of(r) == text,
            }
        }),
{
}

/// An account, as it stands in a URL, holds neither a slash nor an at sign.
pub proof fn accounts_in_urls_hold_no_separator(sa: &str, r: String)
    requires
        call_ensures(encode_sa, (sa,), r),
    ensures
        forall|i: int| 0 <= i < r@.len() ==> #[trigger] r@[i] != '/' && r@[i] != '@',
{
    super::encoded_segments_hold_no_separator(sa@);
}

// The plugin.

/// A grant is for the target that was asked for, and for a well-formed account;
/// no grant is for a target that is not configured.
pub proof fn grants_are_for_the_target_that_was_asked_for<'a>(
    plugin: &'a GcpImpersonationPlugin,
    identity: &PluginIdentity,
    target_name: &str,
    r: Result<Grant<'a>, Refusal>,
)
    requires
        call_ensures(GcpImpersonationPlugin::authorize, (plugin, identity, target_name), r),
    ensures
        !plugin.config.targets@.dom().contains(target_name@) ==> {
            &&& r matches Err(Refusal::UnknownTarget { name })
            &&& name@ == target_name@
        },
        r matches Ok(grant) ==> {
            &&& plugin.config.targets@.dom().contains(target_name@)
            &&& *grant.target == plugin.config.targets@[target_name@]
            &&& is_sa_email(grant.service_account@)
            &&& grant.service_account@ != grant.target.service_account@
                ==> identity.trust_level@ == "verified"@
        },
{
}

/// Nothing has to be done to give a credential back.
pub proof fn credentials_are_given_back_in_any_case(
    plugin: &GcpImpersonationPlugin,
    lease_id: &str,
    r: Result<(), CredentialError>,
)
    requires
        call_ensures(GcpImpersonationPlugin::revoke, (plugin, lease_id), r),
    ensures
        r is Ok,
{
}

} // verus!
