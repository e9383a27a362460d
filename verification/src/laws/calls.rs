//! Where the calls go, what they carry, and what comes of the answers.

use crate::client::{
    access_token_body, action_url, answer_step, bad_expiry, bearer_step, cache_view, encoded_bytes,
    encoded_segment, error_status, fetched_token, gcp_error, id_token_body, jwt_expiry,
    jwt_payload, metadata_failure, metadata_url, reply, resource_names, undecodable, BearerStep,
    BearerStepView, BodyValue, BodyValueView, CachedBaseToken, CachedBaseTokenView, GcpClient,
    IamRequest, MetadataToken, PostStep, PostStepView,
};
use crate::config::{BaseAuth, TargetConfig, TokenKind};
use crate::identity_mapping::resource_name;
use crate::outside::{base64url_bytes, json_inner_text, json_integer};
use crate::plugin::token_request;
use crate::protocol::{CredentialError, CredentialErrorView};
use crate::text::{decimal, first_index_is_unique, texts, without_trailing_slashes};
use vstd::prelude::*;
use vstd::utf8::encode_utf8;

verus! {

// The base token.

/// The base token is fetched from the endpoint without the slashes at its end,
/// the path of the metadata server, exactly the configured account, and `/token`.
pub proof fn metadata_urls_name_the_configured_account(
    host: Seq<char>,
    slashes: Seq<char>,
    account: Seq<char>,
)
    requires
        host.len() > 0 ==> host.last() != '/',
        forall|i: int| 0 <= i < slashes.len() ==> #[trigger] slashes[i] == '/',
    ensures
        metadata_url(host + slashes, account) == host
            + "/computeMetadata/v1/instance/service-accounts/"@ + account + "/token"@,
{
    lemma_slashes_cut(host, slashes);
}

proof fn lemma_slashes_cut(host: Seq<char>, slashes: Seq<char>)
    requires
        host.len() > 0 ==> host.last() != '/',
        forall|i: int| 0 <= i < slashes.len() ==> #[trigger] slashes[i] == '/',
    ensures
        without_trailing_slashes(host + slashes) == host,
{
    let whole = host + slashes;
    let r = without_trailing_slashes(whole);
    super::texts::trailing_slashes_are_cut_off(whole);
    if r.len() > host.len() {
        assert(r.last() == whole[r.len() - 1]);
        assert(whole[r.len() - 1] == slashes[r.len() - 1 - host.len()]);
    } else if r.len() < host.len() {
        assert(whole[host.len() - 1] == host.last());
    }
    assert(r =~= host);
}

/// At one endpoint different accounts have different URLs.
pub proof fn metadata_urls_tell_accounts_apart(endpoint: Seq<char>, a: Seq<char>, b: Seq<char>)
    requires
        metadata_url(endpoint, a) == metadata_url(endpoint, b),
    ensures
        a == b,
{
    let path = "/computeMetadata/v1/instance/service-accounts/"@;
    let host = without_trailing_slashes(endpoint);
    let n = host.len() + path.len();
    let t = "/token"@.len() as int;
    let url = metadata_url(endpoint, a);
    super::texts::trailing_slashes_are_cut_off(endpoint);
    metadata_urls_name_the_configured_account(
        host,
        endpoint.skip(host.len() as int),
        a,
    );
    metadata_urls_name_the_configured_account(
        host,
        endpoint.skip(host.len() as int),
        b,
    );
    assert(host + endpoint.skip(host.len() as int) =~= endpoint);
    assert(a =~= url.subrange(n as int, url.len() - t));
    assert(b =~= url.subrange(n as int, url.len() - t));
}

/// What a client does for a base token, in full. A cached token is used unless a
/// refresh is forced or no more than the buffer is left of its life; then the
/// operator's token is, or the metadata server is asked for the configured
/// account.
pub proof fn base_tokens_come_from_the_cache_or_their_source(
    client: GcpClient,
    cached: Option<CachedBaseTokenView>,
    force_refresh: bool,
    now_ns: u64,
)
    ensures
        ({
            let (step, after) = bearer_step(client, cached, force_refresh, now_ns);
            let usable = !force_refresh && cached is Some && (cached->0.expires_at_ns is None
                || now_ns + client.refresh_buffer_ms * 1_000_000 < cached->0.expires_at_ns->0);
            &&& usable ==> step == BearerStepView::Bearer(cached->0.token) && after == cached
            &&& !usable ==> match client.base {
                BaseAuth::StaticAccessToken { access_token } => {
                    &&& step == BearerStepView::Bearer(access_token@)
                    &&& after == Some(
                        CachedBaseTokenView { token: access_token@, expires_at_ns: None },
                    )
                },
                BaseAuth::MetadataServer { endpoint, service_account } => {
                    &&& step == (BearerStepView::Fetch {
                        url: without_trailing_slashes(endpoint@)
                            + "/computeMetadata/v1/instance/service-accounts/"@ + service_account@
                            + "/token"@,
                    })
                    &&& after == cached
                },
            }
        }),
{
}

/// A token of the metadata server is cached with its text, and expires when its
/// lifetime has passed since it was fetched; one without a lifetime never does.
pub proof fn fetched_tokens_expire_after_their_lifetime(token: MetadataToken, now_ns: u64)
    ensures
        fetched_token(token, now_ns).token == token.access_token@,
        token.expires_in == 0 ==> fetched_token(token, now_ns).expires_at_ns is None,
        token.expires_in > 0 ==> (fetched_token(token, now_ns).expires_at_ns matches Some(at) && at
            == now_ns + token.expires_in * 1_000_000_000),
{
    assert(now_ns + token.expires_in * 1_000_000_000 <= u128::MAX) by (nonlinear_arith)
        requires
            now_ns <= u64::MAX,
            token.expires_in <= u64::MAX,
    ;
}

/// Where the metadata server's answer is of no use, and what is said then.
pub proof fn metadata_answers_count_from_200_to_299(sent: Result<u16, String>)
    ensures
        match sent {
            Ok(status) => {
                &&& 200 <= status <= 299 <==> metadata_failure(sent) is None
                &&& metadata_failure(sent) matches Some(e) ==> e == (CredentialErrorView::Backend {
                    reason: "metadata server returned HTTP "@ + decimal(status as nat),
                })
            },
            Err(error) => metadata_failure(sent) == Some(
                CredentialErrorView::Backend {
                    reason: "metadata server unreachable: "@ + error@,
                },
            ),
        },
{
}

// The request.

/// The resource names of delegates, one for one.
pub proof fn resource_names_keep_their_places(delegates: Seq<String>)
    ensures
        resource_names(delegates).len() == delegates.len(),
        forall|i: int|
            0 <= i < delegates.len() ==> #[trigger] resource_names(delegates)[i] == resource_name(
                delegates[i]@,
            ),
{
}

/// Whether a body has a list of delegates that is the given one, each by its
/// resource name, or no such member where there are no delegates.
pub open spec fn sends_delegates(
    body: Map<Seq<char>, BodyValueView>,
    delegates: Seq<String>,
) -> bool {
    &&& body.dom().contains("delegates"@) <==> delegates.len() > 0
    &&& delegates.len() > 0 ==> {
        &&& body["delegates"@] matches BodyValueView::List(names)
        &&& names.len() == delegates.len()
        &&& forall|i: int|
            0 <= i < delegates.len() ==> #[trigger] names[i] == resource_name(delegates[i]@)
    }
}

proof fn lemma_member_names()
    ensures
        "delegates"@ != "scope"@,
        "delegates"@ != "lifetime"@,
        "delegates"@ != "audience"@,
        "delegates"@ != "includeEmail"@,
        "scope"@ != "lifetime"@,
        "audience"@ != "includeEmail"@,
{
    reveal_strlit("delegates");
    reveal_strlit("scope");
    reveal_strlit("lifetime");
    reveal_strlit("audience");
    reveal_strlit("includeEmail");
    assert("delegates"@.len() == 9 && "scope"@.len() == 5 && "lifetime"@.len() == 8
        && "audience"@.len() == 8 && "includeEmail"@.len() == 12);
}

/// A request for an access token carries all scopes in their order, the lifetime
/// in seconds where one is asked for, and the delegates; and nothing else.
pub proof fn access_token_requests_carry_what_they_are_given(
    scopes: Seq<String>,
    lifetime_seconds: Option<u32>,
    delegates: Seq<String>,
)
    ensures
        ({
            let body = access_token_body(scopes, lifetime_seconds, delegates);
            &&& body.dom().contains("scope"@)
            &&& body["scope"@] matches BodyValueView::List(sent) && {
                &&& sent.len() == scopes.len()
                &&& forall|i: int| 0 <= i < scopes.len() ==> #[trigger] sent[i] == scopes[i]@
            }
            &&& body.dom().contains("lifetime"@) <==> lifetime_seconds is Some
            &&& lifetime_seconds matches Some(secs) ==> body["lifetime"@] == BodyValueView::Text(
                decimal(secs as nat) + "s"@,
            )
            &&& sends_delegates(body, delegates)
            &&& forall|name: Seq<char>| #[trigger]
                body.dom().contains(name) ==> name == "scope"@ || name == "lifetime"@ || name
                    == "delegates"@
        }),
{
    lemma_member_names();
    resource_names_keep_their_places(delegates);
    super::texts::texts_keep_their_places(scopes, None);
}

/// A request for an ID token carries the audience, whether the email is wanted,
/// and the delegates; and nothing else.
pub proof fn id_token_requests_carry_what_they_are_given(
    audience: Seq<char>,
    include_email: bool,
    delegates: Seq<String>,
)
    ensures
        ({
            let body = id_token_body(audience, include_email, delegates);
            &&& body.dom().contains("audience"@)
            &&& body["audience"@] == BodyValueView::Text(audience)
            &&& body.dom().contains("includeEmail"@)
            &&& body["includeEmail"@] == BodyValueView::Flag(include_email)
            &&& sends_delegates(body, delegates)
            &&& forall|name: Seq<char>| #[trigger]
                body.dom().contains(name) ==> name == "audience"@ || name == "includeEmail"@ || name
                    == "delegates"@
        }),
{
    lemma_member_names();
    resource_names_keep_their_places(delegates);
}

/// What is posted for an account at a target, in full: to the action of the kind
/// that the target mints, with the target's scopes, lifetime, audience, flag and
/// delegates.
pub proof fn requests_ask_for_what_the_target_says(
    endpoint: Seq<char>,
    target: TargetConfig,
    sa: Seq<char>,
)
    ensures
        ({
            let request = token_request(endpoint, target, sa);
            let account = endpoint + "/v1/projects/-/serviceAccounts/"@ + encoded_segment(sa);
            let body = request.body;
            &&& sends_delegates(body, target.delegates@)
            &&& target.token_kind == TokenKind::AccessToken ==> {
                &&& request.url == account + ":generateAccessToken"@
                &&& body.dom().contains("scope"@)
                &&& body["scope"@] matches BodyValueView::List(sent) && {
                    &&& sent.len() == target.scopes@.len()
                    &&& forall|i: int|
                        0 <= i < sent.len() ==> #[trigger] sent[i] == target.scopes@[i]@
                }
                &&& body.dom().contains("lifetime"@) <==> target.lifetime_seconds is Some
                &&& target.lifetime_seconds matches Some(secs) ==> body["lifetime"@]
                    == BodyValueView::Text(decimal(secs as nat) + "s"@)
                &&& !body.dom().contains("audience"@)
                &&& !body.dom().contains("includeEmail"@)
            }
            &&& target.token_kind == TokenKind::IdToken ==> {
                &&& request.url == account + ":generateIdToken"@
                &&& body.dom().contains("audience"@)
                &&& target.audience matches Some(audience) ==> body["audience"@]
                    == BodyValueView::Text(audience@)
                &&& target.audience is None ==> body["audience"@] == BodyValueView::Text(
                    Seq::empty(),
                )
                &&& body.dom().contains("includeEmail"@)
                &&& body["includeEmail"@] == BodyValueView::Flag(target.include_email)
                &&& !body.dom().contains("scope"@)
                &&& !body.dom().contains("lifetime"@)
            }
        }),
{
    reveal_strlit("");
    assert(""@ =~= Seq::<char>::empty());
    lemma_member_names();
    lemma_kinds_of_members();
    access_token_requests_carry_what_they_are_given(
        target.scopes@,
        target.lifetime_seconds,
        target.delegates@,
    );
    let audience = match target.audience {
        Some(audience) => audience@,
        None => ""@,
    };
    id_token_requests_carry_what_they_are_given(audience, target.include_email, target.delegates@);
}

proof fn lemma_kinds_of_members()
    ensures
        "audience"@ != "scope"@,
        "audience"@ != "lifetime"@,
        "includeEmail"@ != "scope"@,
        "includeEmail"@ != "lifetime"@,
{
    reveal_strlit("scope");
    reveal_strlit("lifetime");
    reveal_strlit("audience");
    reveal_strlit("includeEmail");
    assert("audience"@[0] == 'a' && "lifetime"@[0] == 'l');
    assert("scope"@.len() == 5 && "lifetime"@.len() == 8 && "includeEmail"@.len() == 12);
}

/// The URL of an action: the host, the path to the account, and the action.
pub proof fn actions_are_of_the_account(endpoint: Seq<char>, sa: Seq<char>, action: Seq<char>)
    ensures
        action_url(endpoint, sa, action) == endpoint + "/v1/projects/-/serviceAccounts/"@
            + encoded_segment(sa) + action,
{
}

/// A text is encoded part by part.
pub proof fn segments_are_encoded_part_by_part(a: Seq<char>, b: Seq<char>)
    ensures
        encoded_segment(a + b) == encoded_segment(a) + encoded_segment(b),
{
    lemma_utf8_of_both(a, b);
    let x = encode_utf8(a);
    let y = encode_utf8(b);
    super::lemma_encoded_prefix(x + y, x.len() as int);
    assert((x + y).take(x.len() as int) =~= x);
    assert((x + y).skip(x.len() as int) =~= y);
}

proof fn lemma_utf8_of_both(a: Seq<char>, b: Seq<char>)
    ensures
        encode_utf8(a + b) == encode_utf8(a) + encode_utf8(b),
    decreases a.len(),
{
    if a.len() == 0 {
        assert(a + b =~= b);
        assert(encode_utf8(a) + encode_utf8(b) =~= encode_utf8(b));
    } else {
        lemma_utf8_of_both(a.drop_first(), b);
        assert((a + b).drop_first() =~= a.drop_first() + b);
        assert((a + b)[0] == a[0]);
        assert(encode_utf8(a + b) =~= encode_utf8(a) + encode_utf8(b));
    }
}

/// A letter, a digit, a hyphen, a dot, an underscore and a tilde stand for
/// themselves. No other character is left as it is.
pub proof fn unreserved_characters_are_kept(c: char)
    ensures
        ('a' <= c <= 'z' || 'A' <= c <= 'Z' || '0' <= c <= '9' || c == '-' || c == '.' || c == '_'
            || c == '~') <==> encoded_segment(seq![c]) == seq![c],
{
    let s = seq![c];
    let e = encoded_segment(s);
    super::encoded_segments_hold_no_separator(s);
    super::escapes_are_whole(s);
    if e == s {
        assert(super::is_segment_char(e[0]));
        if c == '%' {
            assert(super::is_escape_at(e, 0));
        }
    }
    if 'a' <= c <= 'z' || 'A' <= c <= 'Z' || '0' <= c <= '9' || c == '-' || c == '.' || c == '_'
        || c == '~' {
        assert(vstd::utf8::is_ascii_chars(s));
        vstd::utf8::is_ascii_chars_encode_utf8(s);
        let bytes = encode_utf8(s);
        assert(bytes =~= seq![c as u8]);
        assert(bytes.drop_last() =~= Seq::<u8>::empty());
        reveal_with_fuel(encoded_bytes, 2);
        assert(encoded_bytes(bytes) =~= seq![c]);
    }
}

// The answer.

/// After an answer: a request that was not sent before is sent again where the
/// base token was refused, and only then; without an answer it fails, with the
/// reason; else the body is read, with its status.
pub proof fn answers_lead_to_a_retry_a_failure_or_the_body(retried: bool, sent: Result<u16, String>)
    ensures
        match sent {
            Ok(status) => if status == 401 && !retried {
                answer_step(retried, sent) is Retry
            } else {
                answer_step(retried, sent) == (PostStepView::ReadBody { status })
            },
            Err(error) => answer_step(retried, sent) == PostStepView::Failed(
                CredentialErrorView::Backend {
                    reason: "IAM Credentials endpoint unreachable: "@ + error@,
                },
            ),
        },
{
}

/// What comes of a body: with a status of success it is the reply, as it is; with
/// another, a failure by the status and by the error status in it, if any.
pub proof fn bodies_are_replies_or_failures(status: u16, body: Result<String, String>)
    ensures
        200 <= status <= 299 ==> match body {
            Ok(text) => reply(status, body) == Ok::<Seq<char>, CredentialErrorView>(text@),
            Err(error) => reply(status, body) == Err::<Seq<char>, CredentialErrorView>(
                CredentialErrorView::Backend {
                    reason: "read IAM Credentials response: "@ + error@,
                },
            ),
        },
        !(200 <= status <= 299) ==> match body {
            Ok(text) => reply(status, body) == Err::<Seq<char>, CredentialErrorView>(
                gcp_error(
                    status,
                    match json_inner_text(text@, "error"@, "status"@) {
                        Some(named) => named,
                        None => Seq::empty(),
                    },
                ),
            ),
            Err(_) => reply(status, body) == Err::<Seq<char>, CredentialErrorView>(
                gcp_error(
                    status,
                    match json_inner_text(Seq::empty(), "error"@, "status"@) {
                        Some(named) => named,
                        None => Seq::empty(),
                    },
                ),
            ),
        },
{
}

/// The error status is the text under `status` in what is under `error`.
pub proof fn error_statuses_are_read_off_the_body(body: Seq<char>)
    ensures
        json_inner_text(body, "error"@, "status"@) matches Some(named) ==> error_status(body)
            == named,
        json_inner_text(body, "error"@, "status"@) is None ==> error_status(body).len() == 0,
{
}

/// An error status that is known decides alone what a failure is, whatever the
/// HTTP status.
pub proof fn known_statuses_decide_alone(code: u16)
    ensures
        gcp_error(code, "UNAUTHENTICATED"@) is NotAuthorized,
        gcp_error(code, "PERMISSION_DENIED"@) is NotAuthorized,
        gcp_error(code, "RESOURCE_EXHAUSTED"@) is Throttled,
        gcp_error(code, "INVALID_ARGUMENT"@) is Misconfigured,
        gcp_error(code, "FAILED_PRECONDITION"@) is Misconfigured,
        gcp_error(code, "NOT_FOUND"@) is Misconfigured,
        gcp_error(code, "UNAVAILABLE"@) is Backend,
        gcp_error(code, "INTERNAL"@) is Backend,
        gcp_error(code, "DEADLINE_EXCEEDED"@) is Backend,
{
    reveal_strlit("UNAUTHENTICATED");
    reveal_strlit("PERMISSION_DENIED");
    reveal_strlit("RESOURCE_EXHAUSTED");
    reveal_strlit("INVALID_ARGUMENT");
    reveal_strlit("FAILED_PRECONDITION");
    reveal_strlit("NOT_FOUND");
    reveal_strlit("UNAVAILABLE");
    reveal_strlit("INTERNAL");
    reveal_strlit("DEADLINE_EXCEEDED");
    assert("UNAUTHENTICATED"@.len() == 15 && "PERMISSION_DENIED"@.len() == 17);
    assert("RESOURCE_EXHAUSTED"@.len() == 18 && "INVALID_ARGUMENT"@.len() == 16);
    assert("FAILED_PRECONDITION"@.len() == 19 && "NOT_FOUND"@.len() == 9);
    assert("UNAVAILABLE"@.len() == 11 && "INTERNAL"@.len() == 8);
    assert("DEADLINE_EXCEEDED"@.len() == 17);
    assert("PERMISSION_DENIED"@[0] == 'P' && "DEADLINE_EXCEEDED"@[0] == 'D');
}

/// Without an error status that is known, the HTTP status decides.
pub proof fn other_failures_go_by_the_http_status(code: u16, status: Seq<char>)
    requires
        status != "UNAUTHENTICATED"@,
        status != "PERMISSION_DENIED"@,
        status != "RESOURCE_EXHAUSTED"@,
        status != "INVALID_ARGUMENT"@,
        status != "FAILED_PRECONDITION"@,
        status != "NOT_FOUND"@,
        status != "UNAVAILABLE"@,
        status != "INTERNAL"@,
        status != "DEADLINE_EXCEEDED"@,
    ensures
        gcp_error(code, status) is NotAuthorized <==> code == 401 || code == 403,
        gcp_error(code, status) is Throttled <==> code == 429,
        gcp_error(code, status) is Misconfigured <==> 400 <= code <= 499 && code != 401 && code
            != 403 && code != 429,
        gcp_error(code, status) is Backend <==> code < 400 || code > 499,
{
}

/// What is said of an expiry that cannot be read, and of a reply that cannot be
/// decoded.
pub proof fn unreadable_replies_are_told(
    expire_time: Seq<char>,
    action: Seq<char>,
    error: Seq<char>,
)
    ensures
        bad_expiry(expire_time, error) == (CredentialErrorView::Backend {
            reason: "parse expireTime `"@ + expire_time + "`: "@ + error,
        }),
        undecodable(action, error) == (CredentialErrorView::Backend {
            reason: "parse "@ + action + " response: "@ + error,
        }),
{
}

/// An ID token tells its expiry in the member `exp` of the second of its parts;
/// one of a single part tells none.
pub proof fn id_tokens_tell_their_expiry_in_the_second_part(
    header: Seq<char>,
    payload: Seq<char>,
    after: Seq<char>,
)
    requires
        !header.contains('.'),
        !payload.contains('.'),
        after.len() > 0 ==> after[0] == '.',
    ensures
        ({
            let token = header + "."@ + payload + after;
            &&& jwt_payload(token) == Some(payload)
            &&& base64url_bytes(payload) is None ==> jwt_expiry(token) is None
            &&& base64url_bytes(payload) matches Some(bytes) ==> jwt_expiry(token) == json_integer(
                bytes,
                "exp"@,
            )
        }),
        jwt_payload(header) is None,
        jwt_expiry(header) is None,
{
    reveal_strlit(".");
    let token = header + "."@ + payload + after;
    let first = header.len() as int;
    assert forall|j: int| 0 <= j < first implies token[j] != '.' by {
        assert(token[j] == header[j]);
        assert(header.contains(header[j]));
    }
    assert(token[first] == '.');
    first_index_is_unique(token, '.', first);
    let rest = token.skip(first + 1);
    let second = payload.len() as int;
    assert forall|j: int| 0 <= j < second implies rest[j] != '.' by {
        assert(rest[j] == payload[j]);
        assert(payload.contains(payload[j]));
    }
    if after.len() > 0 {
        assert(rest[second] == after[0]);
    }
    first_index_is_unique(rest, '.', second);
    assert(rest.take(second) =~= payload);
    assert forall|j: int| 0 <= j < first implies header[j] != '.' by {
        assert(header.contains(header[j]));
    }
    first_index_is_unique(header, '.', first);
}

// What is seen of the values.

/// What is told of a base token, of a step and of a body is what they hold.
pub proof fn steps_show_what_they_hold(
    cached: CachedBaseToken,
    bearer: BearerStep,
    post: PostStep,
    value: BodyValue,
)
    ensures
        cached@ == (CachedBaseTokenView {
            token: cached.token@,
            expires_at_ns: cached.expires_at_ns,
        }),
        cache_view(Some(cached)) == Some(cached@),
        cache_view(None) is None,
        match bearer {
            BearerStep::Bearer(token) => bearer@ == BearerStepView::Bearer(token@),
            BearerStep::Fetch { url } => bearer@ == (BearerStepView::Fetch { url: url@ }),
        },
        match post {
            PostStep::Retry => post@ == PostStepView::Retry,
            PostStep::ReadBody { status } => post@ == (PostStepView::ReadBody { status }),
            PostStep::Failed(e) => post@ == PostStepView::Failed(e@),
        },
        match value {
            BodyValue::Text(text) => value@ == BodyValueView::Text(text@),
            BodyValue::Flag(flag) => value@ == BodyValueView::Flag(flag),
            BodyValue::List(list) => value@ == BodyValueView::List(texts(list@)),
        },
{
}

/// What is told of a request is its URL and each member of its body.
pub proof fn requests_show_what_they_hold(request: IamRequest)
    ensures
        request@.url == request.url@,
        request@.body.dom() == request.body@.dom(),
        forall|name: Seq<char>| #[trigger]
            request.body@.dom().contains(name) ==> request@.body[name] == request.body@[name]@,
{
    assert(request@.body.dom() =~= request.body@.dom());
}

/// What is told of a failure is its kind and its reason.
pub proof fn failures_show_what_they_hold(e: CredentialError)
    ensures
        match e {
            CredentialError::NotAuthorized { reason } => e@ == (
            CredentialErrorView::NotAuthorized { reason: reason@ }),
            CredentialError::Throttled { reason } => e@ == (CredentialErrorView::Throttled {
                reason: reason@,
            }),
            CredentialError::Misconfigured { reason } => e@ == (
            CredentialErrorView::Misconfigured { reason: reason@ }),
            CredentialError::Backend { reason } => e@ == (CredentialErrorView::Backend {
                reason: reason@,
            }),
        },
{
}

} // verus!
