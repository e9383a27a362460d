//! Which configurations are accepted, and what is said of the others.

use crate::config::{
    base_auth_error, base_error, behind_last, behind_last_is_longest, called_host, completes,
    completes_base_auth, completes_target, config_error_text, ends_authority, first_non_delegate,
    first_non_email, has_user, host_behind_user, host_text, is_api_endpoint, is_document_of,
    is_endpoint, is_fault, is_first_faulty, is_plain_http_host, is_target_document, is_valid,
    last_entries, opt_list, same_config, same_target, target_error, url_authority,
    url_authority_is_longest, BaseAuth, BaseAuthDocument, ConfigDocument, ConfigError,
    ConfigErrorView, GcpImpersonationConfig, IdentityMapping, TargetConfig, TargetDocument,
    TokenKind,
};
use crate::identity_mapping::{all_name_chars, is_delegate, is_name_char, is_sa_email};
use crate::name_map::name_before;
use crate::text::{decimal, first_index_is_unique};
use vstd::prelude::*;

verus! {

// Endpoints.

/// Whether a host may be called without TLS: it is this machine, or the metadata
/// server.
pub open spec fn may_be_plain(host: Seq<char>) -> bool {
    host == "localhost"@ || host == "127.0.0.1"@ || host == "metadata.google.internal"@
}

/// Whether a character ends what stands before the path of a URL.
pub open spec fn cuts(c: char) -> bool {
    c == '/' || c == '?' || c == '#' || c == '\\'
}

/// Over TLS every host may be called, but there has to be one.
pub proof fn tls_endpoints_need_a_host(rest: Seq<char>)
    ensures
        is_endpoint("https://"@ + rest) <==> rest.len() > 0,
        is_api_endpoint("https://"@ + rest) <==> rest.len() > 0,
{
    let url = "https://"@ + rest;
    assert("https://"@ =~= url.subrange(0, "https://"@.len() as int));
}

/// No other schemes than `https` and `http` may be called.
pub proof fn other_schemes_are_refused(url: Seq<char>)
    requires
        !"https://"@.is_prefix_of(url),
        !"http://"@.is_prefix_of(url),
    ensures
        !is_endpoint(url),
        !is_api_endpoint(url),
{
}

proof fn lemma_schemes(rest: Seq<char>)
    ensures
        "http://"@.is_prefix_of("http://"@ + rest),
        !"https://"@.is_prefix_of("http://"@ + rest),
        ("http://"@ + rest).skip("http://"@.len() as int) == rest,
{
    reveal_strlit("http://");
    reveal_strlit("https://");
    let url = "http://"@ + rest;
    assert("http://"@ =~= url.subrange(0, 7));
    assert(url[4] == ':');
    assert("https://"@[4] == 's');
    assert(url.skip(7) =~= rest);
}

proof fn lemma_plain_hosts(host: Seq<char>)
    requires
        may_be_plain(host),
    ensures
        is_plain_http_host(host),
        forall|i: int|
            0 <= i < host.len() ==> !cuts(#[trigger] host[i]) && host[i] != ':' && host[i] != '@',
{
    assert forall|i: int| 0 <= i < host.len() implies !cuts(#[trigger] host[i]) && host[i] != ':'
        && host[i] != '@' by {
        super::lemma_host_is_plain(host, i);
    }
}

proof fn lemma_host_text(host: Seq<char>, tail: Seq<char>)
    requires
        forall|i: int| 0 <= i < host.len() ==> #[trigger] host[i] != '/' && host[i] != ':',
        tail.len() > 0 ==> tail[0] == '/' || tail[0] == ':',
    ensures
        host_text(host + tail) == host,
{
    let rest = host + tail;
    let n = host.len() as int;
    crate::text::first_index_is_first(rest, '/');
    crate::text::first_index_is_first(rest, ':');
    let slash = crate::text::first_index(rest, '/') as int;
    let colon = crate::text::first_index(rest, ':') as int;
    if slash < n {
        assert(rest[slash] == host[slash]);
    }
    if colon < n {
        assert(rest[colon] == host[colon]);
    }
    if tail.len() > 0 {
        assert(rest[n] == tail[0]);
    }
    assert(host_text(rest) =~= host);
}

/// Without TLS, and without a user before it, a host may be called where it is
/// this machine or the metadata server, letter for letter; for the API, where it
/// is this machine. The host ends at the first slash or colon.
pub proof fn plain_endpoints_name_an_allowed_host(host: Seq<char>, tail: Seq<char>)
    requires
        forall|i: int| 0 <= i < host.len() ==> #[trigger] host[i] != '/' && host[i] != ':',
        tail.len() > 0 ==> tail[0] == '/' || tail[0] == ':',
        !host.contains('@'),
        !tail.contains('@'),
    ensures
        is_endpoint("http://"@ + host + tail) <==> may_be_plain(host),
        is_api_endpoint("http://"@ + host + tail) <==> host == "localhost"@ || host
            == "127.0.0.1"@,
{
    let rest = host + tail;
    assert("http://"@ + host + tail =~= "http://"@ + rest);
    lemma_schemes(rest);
    lemma_host_text(host, tail);
    url_authority_is_longest(rest);
    if has_user(rest) {
        let authority = url_authority(rest);
        let i = choose|i: int| 0 <= i < authority.len() && authority[i] == '@';
        assert(rest.take(authority.len() as int)[i] == rest[i]);
        if i < host.len() {
            assert(host.contains(host[i]));
        } else {
            assert(tail[i - host.len()] == '@');
            assert(tail.contains(tail[i - host.len()]));
        }
    }
}

/// Whether a text may stand behind the host: nothing, or a colon and a port.
pub open spec fn may_be_a_port(port: Seq<char>) -> bool {
    &&& port.len() > 0 ==> port[0] == ':'
    &&& forall|i: int| 0 <= i < port.len() ==> #[trigger] port[i] != '@' && !cuts(port[i])
}

/// With a user before it, the host is what stands behind the last at sign, and
/// has to be allowed as well as what stands before the first colon.
pub proof fn plain_endpoints_with_a_user_name_an_allowed_host(
    first: Seq<char>,
    user: Seq<char>,
    host: Seq<char>,
    port: Seq<char>,
    path: Seq<char>,
)
    requires
        forall|i: int| 0 <= i < first.len() ==> #[trigger] first[i] != '/' && first[i] != ':',
        forall|i: int| 0 <= i < user.len() ==> !cuts(#[trigger] user[i]),
        forall|i: int|
            0 <= i < host.len() ==> #[trigger] host[i] != '@' && host[i] != ':' && !cuts(host[i]),
        may_be_a_port(port),
        path.len() > 0 ==> cuts(path[0]),
    ensures
        is_endpoint("http://"@ + (first + ":"@ + user + "@"@ + host + port + path))
            <==> may_be_plain(first) && may_be_plain(host),
        is_api_endpoint("http://"@ + (first + ":"@ + user + "@"@ + host + port + path))
            <==> may_be_plain(first) && (host == "localhost"@ || host == "127.0.0.1"@),
{
    reveal_strlit(":");
    reveal_strlit("@");
    let rest = first + ":"@ + user + "@"@ + host + port + path;
    lemma_schemes(rest);
    let tail = ":"@ + user + "@"@ + host + port + path;
    assert(rest =~= first + tail);
    lemma_host_text(first, tail);
    if may_be_plain(first) {
        lemma_plain_hosts(first);
        let before = first + ":"@ + user + "@"@;
        let server = host + port;
        let authority = before + server;
        assert(rest =~= authority + path);
        url_authority_is_longest(rest);
        let n = url_authority(rest).len() as int;
        assert forall|i: int| 0 <= i < authority.len() implies !ends_authority(
            #[trigger] rest[i],
        ) by {
            if i < first.len() {
                assert(rest[i] == first[i]);
                assert(!cuts(first[i]));
            } else if i == first.len() {
            } else if i < first.len() + 1 + user.len() {
                assert(rest[i] == user[i - first.len() - 1]);
            } else if i == first.len() + 1 + user.len() {
                assert(rest[i] == '@');
            } else if i < before.len() + host.len() {
                assert(rest[i] == host[i - before.len()]);
            } else {
                assert(rest[i] == port[i - before.len() - host.len()]);
            }
        }
        if path.len() > 0 {
            assert(rest[authority.len() as int] == path[0]);
        }
        assert(n == authority.len()) by {
            if n < authority.len() {
                assert(ends_authority(rest[n]));
            } else if n > authority.len() {
                assert(!ends_authority(rest[authority.len() as int]));
            }
        }
        assert(url_authority(rest) =~= authority);
        assert(authority[before.len() - 1] == '@');
        assert(has_user(rest));
        behind_last_is_longest(authority, '@');
        let behind = behind_last(authority, '@');
        let from = authority.len() - behind.len();
        if from < before.len() {
            assert(behind[before.len() - 1 - from] == '@');
            assert(behind.contains(behind[before.len() - 1 - from]));
        } else if from > before.len() {
            assert(authority[from - 1] == '@');
            assert(authority[from - 1] == server[from - 1 - before.len()]);
            if from - 1 - before.len() < host.len() {
                assert(server[from - 1 - before.len()] == host[from - 1 - before.len()]);
            } else {
                assert(server[from - 1 - before.len()] == port[from - 1 - before.len()
                    - host.len()]);
            }
        }
        assert(behind =~= server);
        assert forall|j: int| 0 <= j < host.len() implies server[j] != ':' by {
            assert(server[j] == host[j]);
        }
        if port.len() > 0 {
            assert(server[host.len() as int] == port[0]);
        }
        first_index_is_unique(server, ':', host.len() as int);
        assert(host_behind_user(rest) =~= host);
        assert(called_host(rest) == host);
    }
}

// Faults.

/// The first fault outside the targets: the API's endpoint, then the source of
/// the base token, then that there are no targets.
pub proof fn faults_outside_the_targets_come_first(config: GcpImpersonationConfig)
    ensures
        !is_api_endpoint(config.iam_credentials_endpoint@) ==> base_error(config) == Some(
            ConfigErrorView::InvalidEndpointScheme { field: "iam_credentials_endpoint"@ },
        ),
        is_api_endpoint(config.iam_credentials_endpoint@) && base_auth_error(
            config.base_auth,
        ) is Some ==> base_error(config) == base_auth_error(config.base_auth),
        is_api_endpoint(config.iam_credentials_endpoint@) && base_auth_error(
            config.base_auth,
        ) is None ==> {
            &&& (forall|name: Seq<char>| !config.targets@.dom().contains(name)) ==> base_error(
                config,
            ) == Some(ConfigErrorView::EmptyTargets)
            &&& (exists|name: Seq<char>| config.targets@.dom().contains(name)) ==> base_error(
                config,
            ) is None
        },
{
    if forall|name: Seq<char>| !config.targets@.dom().contains(name) {
        assert(config.targets@ =~= Map::<Seq<char>, TargetConfig>::empty());
    }
}

/// The faults in the source of a base token: an endpoint that may not be called,
/// an account that is neither a name nor an email, an empty token.
pub proof fn faults_in_the_source_of_a_base_token(base_auth: BaseAuth)
    ensures
        match base_auth {
            BaseAuth::MetadataServer { endpoint, service_account } => {
                let account = service_account@;
                let is_name = account.len() > 0 && forall|i: int|
                    0 <= i < account.len() ==> {
                        ||| 'a' <= #[trigger] account[i] <= 'z'
                        ||| '0' <= account[i] <= '9'
                        ||| account[i] == '-'
                    };
                &&& !is_endpoint(endpoint@) ==> base_auth_error(base_auth) == Some(
                    ConfigErrorView::InvalidEndpointScheme {
                        field: "base_auth.metadata_server.endpoint"@,
                    },
                )
                &&& is_endpoint(endpoint@) && !is_name && !is_sa_email(account) ==> base_auth_error(
                    base_auth,
                ) == Some(ConfigErrorView::InvalidMetadataServiceAccount { sa: account })
                &&& is_endpoint(endpoint@) && (is_name || is_sa_email(account)) ==> base_auth_error(
                    base_auth,
                ) is None
            },
            BaseAuth::StaticAccessToken { access_token } => {
                &&& access_token@.len() == 0 ==> base_auth_error(base_auth) == Some(
                    ConfigErrorView::EmptyStaticToken,
                )
                &&& access_token@.len() > 0 ==> base_auth_error(base_auth) is None
            },
        },
{
    if let BaseAuth::MetadataServer { endpoint, service_account } = base_auth {
        let account = service_account@;
        let is_name = account.len() > 0 && forall|i: int|
            0 <= i < account.len() ==> {
                ||| 'a' <= #[trigger] account[i] <= 'z'
                ||| '0' <= account[i] <= '9'
                ||| account[i] == '-'
            };
        if is_name {
            assert(all_name_chars(account));
        }
        if account.len() > 0 && all_name_chars(account) {
            assert forall|i: int| 0 <= i < account.len() implies {
                ||| 'a' <= #[trigger] account[i] <= 'z'
                ||| '0' <= account[i] <= '9'
                ||| account[i] == '-'
            } by {
                assert(is_name_char(account[i]));
            }
        }
    }
}

/// Whether the account of a target is in order: there where it has to be, and an
/// email where it is there; and a template where that is the mapping.
pub open spec fn mapping_is_in_order(target: TargetConfig) -> bool {
    match target.identity_mapping {
        IdentityMapping::Static => is_sa_email(target.service_account@),
        IdentityMapping::SubjectId => target.service_account@.len() == 0 || is_sa_email(
            target.service_account@,
        ),
        IdentityMapping::FromRole => target.service_account@.len() == 0 || is_sa_email(
            target.service_account@,
        ),
        IdentityMapping::Template => target.service_account_template is Some
            && target.service_account_template->0@.len() > 0,
    }
}

/// Whether all on an allowlist are emails.
pub open spec fn allowlist_is_in_order(target: TargetConfig) -> bool {
    target.allowed_service_accounts matches Some(allowed) ==> forall|i: int|
        0 <= i < allowed@.len() ==> is_sa_email((#[trigger] allowed@[i])@)
}

/// Whether what a target says of its tokens is in order: scopes and a lifetime of
/// 1 to 3600 seconds, or to 43200 where that is allowed, for access tokens; an
/// audience, and neither of those, for ID tokens.
pub open spec fn token_is_in_order(target: TargetConfig) -> bool {
    match target.token_kind {
        TokenKind::AccessToken => {
            &&& target.scopes@.len() > 0
            &&& target.lifetime_seconds matches Some(secs) ==> {
                &&& 1 <= secs <= 43_200
                &&& !target.allow_extended_lifetime ==> secs <= 3600
            }
        },
        TokenKind::IdToken => {
            &&& target.audience is Some
            &&& target.audience->0@.len() > 0
            &&& target.scopes@.len() == 0
            &&& target.lifetime_seconds is None
        },
    }
}

/// Whether all in a delegation chain are delegates.
pub open spec fn delegates_are_in_order(target: TargetConfig) -> bool {
    forall|i: int|
        0 <= i < target.delegates@.len() ==> is_delegate((#[trigger] target.delegates@[i])@)
}

proof fn lemma_first_non_email(list: Seq<String>)
    ensures
        first_non_email(list) is None ==> forall|i: int|
            0 <= i < list.len() ==> is_sa_email((#[trigger] list[i])@),
        first_non_email(list) matches Some(found) ==> exists|i: int|
            {
                &&& 0 <= i < list.len()
                &&& (#[trigger] list[i])@ == found
                &&& !is_sa_email(found)
                &&& forall|j: int| 0 <= j < i ==> is_sa_email((#[trigger] list[j])@)
            },
    decreases list.len(),
{
    if list.len() > 0 {
        let short = list.drop_last();
        lemma_first_non_email(short);
        if let Some(found) = first_non_email(short) {
            let i = choose|i: int|
                {
                    &&& 0 <= i < short.len()
                    &&& (#[trigger] short[i])@ == found
                    &&& !is_sa_email(found)
                    &&& forall|j: int| 0 <= j < i ==> is_sa_email((#[trigger] short[j])@)
                };
            assert(list[i] == short[i]);
            assert forall|j: int| 0 <= j < i implies is_sa_email((#[trigger] list[j])@) by {
                assert(list[j] == short[j]);
            }
        } else {
            let i = list.len() - 1;
            assert forall|j: int| 0 <= j < i implies is_sa_email((#[trigger] list[j])@) by {
                assert(list[j] == short[j]);
            }
            assert(list[i] == list.last());
        }
    }
}

proof fn lemma_first_non_delegate(list: Seq<String>)
    ensures
        first_non_delegate(list) is None ==> forall|i: int|
            0 <= i < list.len() ==> is_delegate((#[trigger] list[i])@),
        first_non_delegate(list) matches Some(found) ==> exists|i: int|
            {
                &&& 0 <= i < list.len()
                &&& (#[trigger] list[i])@ == found
                &&& !is_delegate(found)
                &&& forall|j: int| 0 <= j < i ==> is_delegate((#[trigger] list[j])@)
            },
    decreases list.len(),
{
    if list.len() > 0 {
        let short = list.drop_last();
        lemma_first_non_delegate(short);
        if let Some(found) = first_non_delegate(short) {
            let i = choose|i: int|
                {
                    &&& 0 <= i < short.len()
                    &&& (#[trigger] short[i])@ == found
                    &&& !is_delegate(found)
                    &&& forall|j: int| 0 <= j < i ==> is_delegate((#[trigger] short[j])@)
                };
            assert(list[i] == short[i]);
            assert forall|j: int| 0 <= j < i implies is_delegate((#[trigger] list[j])@) by {
                assert(list[j] == short[j]);
            }
        } else {
            let i = list.len() - 1;
            assert forall|j: int| 0 <= j < i implies is_delegate((#[trigger] list[j])@) by {
                assert(list[j] == short[j]);
            }
            assert(list[i] == list.last());
        }
    }
}

/// A target has no fault where its account, its allowlist, its token, its
/// delegates and its limit of a millisecond to a day are in order, and only then.
pub proof fn targets_without_fault_are_in_order(name: Seq<char>, target: TargetConfig)
    ensures
        target_error(name, target) is None <==> {
            &&& mapping_is_in_order(target)
            &&& allowlist_is_in_order(target)
            &&& token_is_in_order(target)
            &&& delegates_are_in_order(target)
            &&& 1 <= target.max_cache_ttl_ms <= 86_400_000
        },
{
    if let Some(allowed) = target.allowed_service_accounts {
        lemma_first_non_email(allowed@);
    }
    lemma_first_non_delegate(target.delegates@);
    super::callers::emails_have_an_at_sign(Seq::empty());
}

/// What is wrong with the account of a target comes first.
pub proof fn faulty_accounts_are_told(name: Seq<char>, target: TargetConfig)
    requires
        !mapping_is_in_order(target),
    ensures
        target.identity_mapping == IdentityMapping::Template ==> target_error(name, target) == Some(
            ConfigErrorView::TemplateTargetMissingTemplate { name },
        ),
        target.identity_mapping != IdentityMapping::Template && target.service_account@.len() == 0
            ==> target_error(name, target) == Some(ConfigErrorView::StaticTargetMissingSa { name }),
        target.identity_mapping != IdentityMapping::Template && target.service_account@.len() > 0
            ==> target_error(name, target) == Some(
            ConfigErrorView::InvalidServiceAccount { name, sa: target.service_account@ },
        ),
{
}

/// Then the first on the allowlist that is no email.
pub proof fn faulty_allowlists_are_told(
    name: Seq<char>,
    target: TargetConfig,
    allowed: Vec<String>,
    i: int,
)
    requires
        mapping_is_in_order(target),
        target.allowed_service_accounts == Some(allowed),
        0 <= i < allowed@.len(),
        !is_sa_email(allowed@[i]@),
        forall|j: int| 0 <= j < i ==> is_sa_email((#[trigger] allowed@[j])@),
    ensures
        target_error(name, target) == Some(
            ConfigErrorView::InvalidAllowedServiceAccount { name, sa: allowed@[i]@ },
        ),
{
    lemma_first_non_email(allowed@);
    super::callers::emails_have_an_at_sign(Seq::empty());
    if let Some(found) = first_non_email(allowed@) {
        let k = choose|k: int|
            {
                &&& 0 <= k < allowed@.len()
                &&& (#[trigger] allowed@[k])@ == found
                &&& !is_sa_email(found)
                &&& forall|j: int| 0 <= j < k ==> is_sa_email((#[trigger] allowed@[j])@)
            };
        assert(k == i) by {
            if k < i {
                assert(is_sa_email(allowed@[k]@));
            } else if i < k {
                assert(is_sa_email(allowed@[i]@));
            }
        }
    } else {
        assert(is_sa_email(allowed@[i]@));
    }
}

/// Then what is wrong with its tokens: for access tokens the scopes, then the
/// lifetime, with the limit that it breaks; for ID tokens the audience, then a
/// scope or a lifetime.
pub proof fn faulty_tokens_are_told(name: Seq<char>, target: TargetConfig)
    requires
        mapping_is_in_order(target),
        allowlist_is_in_order(target),
        !token_is_in_order(target),
    ensures
        target.token_kind == TokenKind::AccessToken && target.scopes@.len() == 0 ==> target_error(
            name,
            target,
        ) == Some(ConfigErrorView::AccessTokenMissingScopes { name }),
        target.token_kind == TokenKind::AccessToken && target.scopes@.len() > 0 ==> {
            &&& target.lifetime_seconds matches Some(secs)
            &&& target_error(name, target) == Some(
                ConfigErrorView::InvalidLifetime {
                    name,
                    secs,
                    max: if target.allow_extended_lifetime {
                        43_200
                    } else {
                        3600
                    },
                },
            )
        },
        target.token_kind == TokenKind::IdToken && (target.audience is None
            || target.audience->0@.len() == 0) ==> target_error(name, target) == Some(
            ConfigErrorView::IdTokenMissingAudience { name },
        ),
        target.token_kind == TokenKind::IdToken && target.audience is Some
            && target.audience->0@.len() > 0 ==> target_error(name, target) == Some(
            ConfigErrorView::IdTokenUnexpectedField { name },
        ),
{
    if let Some(allowed) = target.allowed_service_accounts {
        lemma_first_non_email(allowed@);
    }
    super::callers::emails_have_an_at_sign(Seq::empty());
}

/// Then the first in the delegation chain that is no delegate.
pub proof fn faulty_delegates_are_told(name: Seq<char>, target: TargetConfig, i: int)
    requires
        mapping_is_in_order(target),
        allowlist_is_in_order(target),
        token_is_in_order(target),
        0 <= i < target.delegates@.len(),
        !is_delegate(target.delegates@[i]@),
        forall|j: int| 0 <= j < i ==> is_delegate((#[trigger] target.delegates@[j])@),
    ensures
        target_error(name, target) == Some(
            ConfigErrorView::InvalidDelegate { name, d: target.delegates@[i]@ },
        ),
{
    if let Some(allowed) = target.allowed_service_accounts {
        lemma_first_non_email(allowed@);
    }
    let list = target.delegates@;
    lemma_first_non_delegate(list);
    super::callers::emails_have_an_at_sign(Seq::empty());
    if let Some(found) = first_non_delegate(list) {
        let k = choose|k: int|
            {
                &&& 0 <= k < list.len()
                &&& (#[trigger] list[k])@ == found
                &&& !is_delegate(found)
                &&& forall|j: int| 0 <= j < k ==> is_delegate((#[trigger] list[j])@)
            };
        assert(k == i) by {
            if k < i {
                assert(is_delegate(list[k]@));
            } else if i < k {
                assert(is_delegate(list[i]@));
            }
        }
    } else {
        assert(is_delegate(list[i]@));
    }
}

/// Then the limit on the lifetime of a credential.
pub proof fn faulty_limits_are_told(name: Seq<char>, target: TargetConfig)
    requires
        mapping_is_in_order(target),
        allowlist_is_in_order(target),
        token_is_in_order(target),
        delegates_are_in_order(target),
        target.max_cache_ttl_ms == 0 || target.max_cache_ttl_ms > 86_400_000,
    ensures
        target_error(name, target) == Some(
            ConfigErrorView::InvalidMaxCacheTtl { name, ttl: target.max_cache_ttl_ms },
        ),
{
    if let Some(allowed) = target.allowed_service_accounts {
        lemma_first_non_email(allowed@);
    }
    lemma_first_non_delegate(target.delegates@);
    super::callers::emails_have_an_at_sign(Seq::empty());
}

/// A configuration is valid where it has no fault outside its targets and none in
/// any of them.
pub proof fn valid_configurations_have_no_fault(config: GcpImpersonationConfig)
    ensures
        is_valid(config) <==> {
            &&& base_error(config) is None
            &&& forall|name: Seq<char>| #[trigger]
                config.targets@.dom().contains(name) ==> target_error(
                    name,
                    config.targets@[name],
                ) is None
        },
{
}

/// The fault that is told is the one outside the targets, if there is one; else
/// that of the first faulty target in the order of the names.
pub proof fn the_first_fault_is_told(
    config: GcpImpersonationConfig,
    name: Seq<char>,
    e: ConfigErrorView,
)
    ensures
        base_error(config) is Some ==> (is_fault(config, e) <==> base_error(config) == Some(e)),
        base_error(config) is None && config.targets@.dom().contains(name) && target_error(
            name,
            config.targets@[name],
        ) is Some && (forall|other: Seq<char>| #[trigger]
            config.targets@.dom().contains(other) && name_before(other, name) ==> target_error(
                other,
                config.targets@[other],
            ) is None) ==> (is_fault(config, e) <==> target_error(name, config.targets@[name])
            == Some(e)),
{
    let targets = config.targets@;
    if base_error(config) is None && is_first_faulty(targets, name) {
        let found = target_error(name, targets[name])->0;
        assert(is_fault(config, found));
        if is_fault(config, e) {
            super::faults_are_unique(config, e, found);
        }
    }
}

// What was written, and the defaults.

/// What the operator writes of a target holds, and what is left out has its
/// default.
pub proof fn targets_are_as_written_or_by_default(document: TargetDocument, target: TargetConfig)
    requires
        completes_target(document, target),
    ensures
        document.token_kind matches Some(kind) ==> target.token_kind == kind,
        document.token_kind is None ==> target.token_kind == TokenKind::AccessToken,
        document.service_account matches Some(account) ==> target.service_account@ == account@,
        document.service_account is None ==> target.service_account@.len() == 0,
        document.identity_mapping matches Some(mapping) ==> target.identity_mapping == mapping,
        document.identity_mapping is None ==> target.identity_mapping == IdentityMapping::Static,
        target.service_account_template == document.service_account_template,
        document.allowed_service_accounts matches Some(list)
            ==> target.allowed_service_accounts is Some && target.allowed_service_accounts->0@
            == list@,
        document.allowed_service_accounts is None ==> target.allowed_service_accounts is None,
        document.scopes matches Some(list) ==> target.scopes@ == list@,
        document.scopes is None ==> target.scopes@.len() == 0,
        target.lifetime_seconds == document.lifetime_seconds,
        document.allow_extended_lifetime matches Some(allow) ==> target.allow_extended_lifetime
            == allow,
        document.allow_extended_lifetime is None ==> !target.allow_extended_lifetime,
        target.audience == document.audience,
        document.include_email matches Some(email) ==> target.include_email == email,
        document.include_email is None ==> target.include_email,
        document.id_token_assumed_ttl_seconds matches Some(ttl)
            ==> target.id_token_assumed_ttl_seconds == ttl,
        document.id_token_assumed_ttl_seconds is None ==> target.id_token_assumed_ttl_seconds
            == 3300,
        document.delegates matches Some(list) ==> target.delegates@ == list@,
        document.delegates is None ==> target.delegates@.len() == 0,
        document.max_cache_ttl_ms matches Some(ms) ==> target.max_cache_ttl_ms == ms,
        document.max_cache_ttl_ms is None ==> target.max_cache_ttl_ms == 3_600_000,
{
}

/// What the operator writes of the rest holds, and what is left out has its
/// default; and the targets are those that were written.
pub proof fn configurations_are_as_written_or_by_default(
    document: ConfigDocument,
    config: GcpImpersonationConfig,
)
    requires
        completes(document, config),
    ensures
        document.iam_credentials_endpoint matches Some(endpoint)
            ==> config.iam_credentials_endpoint@ == endpoint@,
        document.iam_credentials_endpoint is None ==> config.iam_credentials_endpoint@
            == "https://iamcredentials.googleapis.com"@,
        document.connect_timeout_ms matches Some(ms) ==> config.connect_timeout_ms == ms,
        document.connect_timeout_ms is None ==> config.connect_timeout_ms == 5000,
        document.operation_timeout_ms matches Some(ms) ==> config.operation_timeout_ms == ms,
        document.operation_timeout_ms is None ==> config.operation_timeout_ms == 15_000,
        document.refresh_buffer_ms matches Some(ms) ==> config.refresh_buffer_ms == ms,
        document.refresh_buffer_ms is None ==> config.refresh_buffer_ms == 60_000,
        config.targets@.dom() == last_entries(document.targets@).dom(),
        forall|name: Seq<char>| #[trigger]
            config.targets@.dom().contains(name) ==> completes_target(
                last_entries(document.targets@)[name],
                config.targets@[name],
            ),
        completes_base_auth(document.base_auth, config.base_auth),
{
}

/// The base token comes from where the operator says, and from the metadata
/// server's default account where nothing is said.
pub proof fn base_tokens_are_as_written_or_by_default(
    document: Option<BaseAuthDocument>,
    base_auth: BaseAuth,
)
    requires
        completes_base_auth(document, base_auth),
    ensures
        match document {
            None => base_auth matches BaseAuth::MetadataServer { endpoint, service_account }
                && endpoint@ == "http://metadata.google.internal"@ && service_account@
                == "default"@,
            Some(BaseAuthDocument::MetadataServer { endpoint, service_account }) => {
                &&& base_auth matches BaseAuth::MetadataServer { endpoint: e, service_account: s }
                &&& endpoint matches Some(written) ==> e@ == written@
                &&& endpoint is None ==> e@ == "http://metadata.google.internal"@
                &&& service_account matches Some(written) ==> s@ == written@
                &&& service_account is None ==> s@ == "default"@
            },
            Some(BaseAuthDocument::StaticAccessToken { access_token }) => {
                &&& base_auth matches BaseAuth::StaticAccessToken { access_token: t }
                &&& t@ == access_token@
            },
        },
{
}

/// A document in full says every field of a target.
pub proof fn target_documents_in_full_say_every_field(
    document: TargetDocument,
    target: TargetConfig,
)
    requires
        is_target_document(document, target),
    ensures
        document.token_kind == Some(target.token_kind),
        document.service_account == Some(target.service_account),
        document.identity_mapping == Some(target.identity_mapping),
        document.service_account_template == target.service_account_template,
        opt_list(document.allowed_service_accounts) == opt_list(target.allowed_service_accounts),
        document.scopes is Some && document.scopes->0@ == target.scopes@,
        document.lifetime_seconds == target.lifetime_seconds,
        document.allow_extended_lifetime == Some(target.allow_extended_lifetime),
        document.audience == target.audience,
        document.include_email == Some(target.include_email),
        document.id_token_assumed_ttl_seconds == Some(target.id_token_assumed_ttl_seconds),
        document.delegates is Some && document.delegates->0@ == target.delegates@,
        document.max_cache_ttl_ms == Some(target.max_cache_ttl_ms),
{
}

/// A document in full says every field of a configuration.
pub proof fn documents_in_full_say_every_field(
    document: ConfigDocument,
    config: GcpImpersonationConfig,
)
    requires
        is_document_of(document, config),
    ensures
        document.base_auth is Some,
        completes_base_auth(document.base_auth, config.base_auth),
        config.base_auth matches BaseAuth::MetadataServer { endpoint, service_account }
            ==> document.base_auth == Some(
            BaseAuthDocument::MetadataServer {
                endpoint: Some(endpoint),
                service_account: Some(service_account),
            },
        ),
        document.iam_credentials_endpoint == Some(config.iam_credentials_endpoint),
        document.connect_timeout_ms == Some(config.connect_timeout_ms),
        document.operation_timeout_ms == Some(config.operation_timeout_ms),
        document.refresh_buffer_ms == Some(config.refresh_buffer_ms),
        last_entries(document.targets@).dom() == config.targets@.dom(),
        forall|name: Seq<char>| #[trigger]
            config.targets@.dom().contains(name) ==> is_target_document(
                last_entries(document.targets@)[name],
                config.targets@[name],
            ),
{
}

/// Configurations that are the same agree in every field of every target.
pub proof fn same_configurations_agree_in_every_field(
    a: GcpImpersonationConfig,
    b: GcpImpersonationConfig,
)
    requires
        same_config(a, b),
    ensures
        a.base_auth == b.base_auth,
        a.iam_credentials_endpoint@ == b.iam_credentials_endpoint@,
        a.connect_timeout_ms == b.connect_timeout_ms,
        a.operation_timeout_ms == b.operation_timeout_ms,
        a.refresh_buffer_ms == b.refresh_buffer_ms,
        a.targets@.dom() == b.targets@.dom(),
        forall|name: Seq<char>| #[trigger]
            a.targets@.dom().contains(name) ==> agree(a.targets@[name], b.targets@[name]),
{
    assert forall|name: Seq<char>| #[trigger] a.targets@.dom().contains(name) implies agree(
        a.targets@[name],
        b.targets@[name],
    ) by {
        assert(same_target(a.targets@[name], b.targets@[name]));
    }
}

/// Whether two targets agree in every field.
pub open spec fn agree(a: TargetConfig, b: TargetConfig) -> bool {
    &&& a.token_kind == b.token_kind
    &&& a.service_account@ == b.service_account@
    &&& a.identity_mapping == b.identity_mapping
    &&& a.service_account_template == b.service_account_template
    &&& a.allowed_service_accounts is Some <==> b.allowed_service_accounts is Some
    &&& a.allowed_service_accounts is Some ==> a.allowed_service_accounts->0@
        == b.allowed_service_accounts->0@
    &&& a.scopes@ == b.scopes@
    &&& a.lifetime_seconds == b.lifetime_seconds
    &&& a.allow_extended_lifetime == b.allow_extended_lifetime
    &&& a.audience == b.audience
    &&& a.include_email == b.include_email
    &&& a.id_token_assumed_ttl_seconds == b.id_token_assumed_ttl_seconds
    &&& a.delegates@ == b.delegates@
    &&& a.max_cache_ttl_ms == b.max_cache_ttl_ms
}

// What the operator is told.

/// What the operator is told of a fault outside the targets.
pub proof fn faults_outside_the_targets_are_worded(text: Seq<char>)
    ensures
        config_error_text(ConfigErrorView::InvalidJson(text))
            == "invalid credential.gcp-impersonation config JSON: "@ + text,
        config_error_text(ConfigErrorView::InvalidEndpointScheme { field: text })
            == "credential.gcp-impersonation: "@ + text
            + " must be https:// (or http://localhost for tests)"@,
        config_error_text(ConfigErrorView::EmptyTargets)
            == "credential.gcp-impersonation: targets must be non-empty"@,
        config_error_text(ConfigErrorView::EmptyStaticToken)
            == "credential.gcp-impersonation: base_auth.static_access_token.access_token is empty"@,
        config_error_text(ConfigErrorView::InvalidMetadataServiceAccount { sa: text })
            == "credential.gcp-impersonation: base_auth.metadata_server.service_account `"@ + text
            + "` is not a valid SA alias or email"@,
{
}

/// What the operator is told of a fault in a target: the target by its name, and
/// then the fault.
pub proof fn faults_in_targets_are_worded(
    name: Seq<char>,
    sa: Seq<char>,
    secs: u32,
    max: u32,
    ttl: u64,
)
    ensures
        ({
            let target = "credential.gcp-impersonation: target `"@ + name + "`"@;
            &&& config_error_text(ConfigErrorView::StaticTargetMissingSa { name }) == target
                + " has identity_mapping=static but service_account is empty"@
            &&& config_error_text(ConfigErrorView::InvalidServiceAccount { name, sa }) == target
                + " service_account `"@ + sa + "` is not a valid service-account email"@
            &&& config_error_text(ConfigErrorView::TemplateTargetMissingTemplate { name })
                == target
                + " has identity_mapping=template but service_account_template is missing"@
            &&& config_error_text(ConfigErrorView::InvalidAllowedServiceAccount { name, sa })
                == target + " allowed_service_accounts entry `"@ + sa
                + "` is not a valid service-account email"@
            &&& config_error_text(ConfigErrorView::AccessTokenMissingScopes { name }) == target
                + " token_kind=access_token requires non-empty scopes"@
            &&& config_error_text(ConfigErrorView::InvalidLifetime { name, secs, max }) == target
                + " lifetime_seconds="@ + decimal(secs as nat) + " out of range (1..="@ + decimal(
                max as nat,
            ) + ")"@
            &&& config_error_text(ConfigErrorView::IdTokenMissingAudience { name }) == target
                + " token_kind=id_token requires a non-empty audience"@
            &&& config_error_text(ConfigErrorView::IdTokenUnexpectedField { name }) == target
                + " token_kind=id_token must not set scopes/lifetime_seconds"@
            &&& config_error_text(ConfigErrorView::InvalidDelegate { name, d: sa }) == target
                + " delegate `"@ + sa + "` is not a valid SA email or resource name"@
            &&& config_error_text(ConfigErrorView::InvalidMaxCacheTtl { name, ttl }) == target
                + " max_cache_ttl_ms="@ + decimal(ttl as nat) + "; must be 1..=86_400_000"@
        }),
{
}

/// What is told of a fault is what it holds.
pub proof fn faults_show_what_they_hold(e: ConfigError)
    ensures
        match e {
            ConfigError::InvalidJson(text) => e@ == ConfigErrorView::InvalidJson(text@),
            ConfigError::InvalidEndpointScheme { field } => e@ == (
            ConfigErrorView::InvalidEndpointScheme { field: field@ }),
            ConfigError::EmptyTargets => e@ == ConfigErrorView::EmptyTargets,
            ConfigError::EmptyStaticToken => e@ == ConfigErrorView::EmptyStaticToken,
            ConfigError::InvalidMetadataServiceAccount { sa } => e@ == (
            ConfigErrorView::InvalidMetadataServiceAccount { sa: sa@ }),
            ConfigError::StaticTargetMissingSa { name } => e@ == (
            ConfigErrorView::StaticTargetMissingSa { name: name@ }),
            ConfigError::InvalidServiceAccount { name, sa } => e@ == (
            ConfigErrorView::InvalidServiceAccount { name: name@, sa: sa@ }),
            ConfigError::TemplateTargetMissingTemplate { name } => e@ == (
            ConfigErrorView::TemplateTargetMissingTemplate { name: name@ }),
            ConfigError::InvalidAllowedServiceAccount { name, sa } => e@ == (
            ConfigErrorView::InvalidAllowedServiceAccount { name: name@, sa: sa@ }),
            ConfigError::AccessTokenMissingScopes { name } => e@ == (
            ConfigErrorView::AccessTokenMissingScopes { name: name@ }),
            ConfigError::InvalidLifetime { name, secs, max } => e@ == (
            ConfigErrorView::InvalidLifetime { name: name@, secs, max }),
            ConfigError::IdTokenMissingAudience { name } => e@ == (
            ConfigErrorView::IdTokenMissingAudience { name: name@ }),
            ConfigError::IdTokenUnexpectedField { name } => e@ == (
            ConfigErrorView::IdTokenUnexpectedField { name: name@ }),
            ConfigError::InvalidDelegate { name, d } => e@ == (ConfigErrorView::InvalidDelegate {
                name: name@,
                d: d@,
            }),
            ConfigError::InvalidMaxCacheTtl { name, ttl } => e@ == (
            ConfigErrorView::InvalidMaxCacheTtl { name: name@, ttl }),
        },
{
}

} // verus!
