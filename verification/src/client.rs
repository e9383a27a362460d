//! Calls of the IAM Credentials API: the base token and its cache, the requests
//! that mint a token, and what the replies mean.

use crate::config::{BaseAuth, GcpImpersonationConfig};
use crate::identity_mapping::{delegate_resource_name, resource_name};
use crate::name_map::NameMap;
use crate::outside::{
    base64url_bytes, decode_base64url, json_inner_text, json_integer, parse_rfc3339,
    read_json_inner_text, read_json_integer, rfc3339_timestamp, unix_now,
};
use crate::protocol::{CredentialError, CredentialErrorView};
use crate::text::{
    chars_of, copy_list, decimal, decimal_text, find_char, first_index, opt_text, same_text,
    string_of, texts, trim_trailing_slashes, without_trailing_slashes,
};
use vstd::prelude::*;
use vstd::utf8::encode_utf8;

verus! {

/// Whether a byte stands for itself in a URL path segment.
pub open spec fn is_unreserved(b: u8) -> bool {
    ||| 65 <= b <= 90
    ||| 97 <= b <= 122
    ||| 48 <= b <= 57
    ||| b == 45
    ||| b == 46
    ||| b == 95
    ||| b == 126
}

/// The upper-case hexadecimal digit of a value below sixteen.
pub open spec fn hex_digit(d: int) -> char {
    if d < 10 {
        (48 + d) as char
    } else {
        (55 + d) as char
    }
}

/// How a byte is written in a URL path segment: as it is, or percent-encoded.
pub open spec fn encoded_byte(b: u8) -> Seq<char> {
    if is_unreserved(b) {
        seq![b as char]
    } else {
        seq!['%', hex_digit(b as int / 16), hex_digit(b as int % 16)]
    }
}

/// How a sequence of bytes is written in a URL path segment.
pub open spec fn encoded_bytes(bytes: Seq<u8>) -> Seq<char>
    decreases bytes.len(),
{
    if bytes.len() == 0 {
        Seq::empty()
    } else {
        encoded_bytes(bytes.drop_last()) + encoded_byte(bytes.last())
    }
}

/// How a text is written in a URL path segment.
pub open spec fn encoded_segment(s: Seq<char>) -> Seq<char> {
    encoded_bytes(encode_utf8(s))
}

fn hex(d: u8) -> (r: char)
    requires
        d < 16,
    ensures
        r == hex_digit(d as int),
{
    if d < 10 {
        (48u8 + d) as char
    } else {
        (55u8 + d) as char
    }
}

/// Percent-encodes the email of a service account as a URL path segment. In a
/// well-formed email the at sign is the one character that changes.
pub fn encode_sa(sa: &str) -> (r: String)
    ensures
        r@ == encoded_segment(sa@),
{
    let bytes: &[u8] = sa.as_bytes();
    let mut out: String = String::new();
    let mut i: usize = 0;
    while i < bytes.len()
        invariant
            i <= bytes@.len(),
            out@ == encoded_bytes(bytes@.take(i as int)),
        decreases bytes@.len() - i,
    {
        let b: u8 = bytes[i];
        let ghost before = out@;
        assert(bytes@.take(i + 1).drop_last() =~= bytes@.take(i as int));
        if (65 <= b && b <= 90) || (97 <= b && b <= 122) || (48 <= b && b <= 57) || b == 45 || b
            == 46 || b == 95 || b == 126 {
            out.push(b as char);
        } else {
            out.push('%');
            out.push(hex(b / 16));
            out.push(hex(b % 16));
        }
        assert(out@ =~= before + encoded_byte(b));
        i = i + 1;
    }
    assert(bytes@.take(i as int) =~= bytes@);
    out
}

/// What an error reply of the API means. The status decides, and where it is
/// unknown or absent the HTTP code.
pub open spec fn gcp_error(code: u16, status: Seq<char>) -> CredentialErrorView {
    let reason = if status.len() == 0 {
        "IAM Credentials returned HTTP "@ + decimal(code as nat)
    } else {
        "IAM Credentials returned HTTP "@ + decimal(code as nat) + " ("@ + status + ")"@
    };
    if status == "UNAUTHENTICATED"@ || status == "PERMISSION_DENIED"@ {
        CredentialErrorView::NotAuthorized { reason }
    } else if status == "RESOURCE_EXHAUSTED"@ {
        CredentialErrorView::Throttled { reason }
    } else if status == "INVALID_ARGUMENT"@ || status == "FAILED_PRECONDITION"@ || status
        == "NOT_FOUND"@ {
        CredentialErrorView::Misconfigured { reason }
    } else if status == "UNAVAILABLE"@ || status == "INTERNAL"@ || status == "DEADLINE_EXCEEDED"@ {
        CredentialErrorView::Backend { reason }
    } else if code == 401 || code == 403 {
        CredentialErrorView::NotAuthorized { reason }
    } else if code == 429 {
        CredentialErrorView::Throttled { reason }
    } else if 400 <= code <= 499 {
        CredentialErrorView::Misconfigured { reason }
    } else {
        CredentialErrorView::Backend { reason }
    }
}

/// Classifies an error reply by its status and its HTTP code.
pub fn classify_gcp_error(code: u16, status: &str) -> (r: CredentialError)
    ensures
        r@ == gcp_error(code, status@),
{
    let mut reason: String = "IAM Credentials returned HTTP ".to_owned().concat(
        decimal_text(code as u64).as_str(),
    );
    if !status.is_empty() {
        reason = reason.concat(" (").concat(status).concat(")");
    }
    if same_text(status, "UNAUTHENTICATED") || same_text(status, "PERMISSION_DENIED") {
        CredentialError::NotAuthorized { reason }
    } else if same_text(status, "RESOURCE_EXHAUSTED") {
        CredentialError::Throttled { reason }
    } else if same_text(status, "INVALID_ARGUMENT") || same_text(status, "FAILED_PRECONDITION")
        || same_text(status, "NOT_FOUND") {
        CredentialError::Misconfigured { reason }
    } else if same_text(status, "UNAVAILABLE") || same_text(status, "INTERNAL") || same_text(
        status,
        "DEADLINE_EXCEEDED",
    ) {
        CredentialError::Backend { reason }
    } else if code == 401 || code == 403 {
        CredentialError::NotAuthorized { reason }
    } else if code == 429 {
        CredentialError::Throttled { reason }
    } else if 400 <= code && code <= 499 {
        CredentialError::Misconfigured { reason }
    } else {
        CredentialError::Backend { reason }
    }
}

/// The status that the body of an error reply names, or no text.
pub open spec fn error_status(body: Seq<char>) -> Seq<char> {
    match json_inner_text(body, "error"@, "status"@) {
        Some(status) => status,
        None => Seq::empty(),
    }
}

/// Classifies an error reply. Of the body only the status is read, never the
/// message, which can echo what was submitted.
pub fn map_gcp_error(code: u16, body: &str) -> (r: CredentialError)
    ensures
        r@ == gcp_error(code, error_status(body@)),
{
    let status: String = match read_json_inner_text(body, "error", "status") {
        Some(status) => status,
        None => String::new(),
    };
    classify_gcp_error(code, status.as_str())
}

/// The seconds from `now` to `until`, and one where none is left.
pub open spec fn seconds_until(until: i64, now: i64) -> u64 {
    if until - now >= 1 {
        (until - now) as u64
    } else {
        1
    }
}

/// The seconds from `now` to `until`, and one where none is left.
pub fn seconds_left(until: i64, now: i64) -> (r: u64)
    ensures
        r == seconds_until(until, now),
        r >= 1,
        until > now ==> r == until - now,
{
    let left: i128 = until as i128 - now as i128;
    if left >= 1 {
        left as u64
    } else {
        1
    }
}

/// What an unreadable expiry means.
pub open spec fn bad_expiry(expire_time: Seq<char>, error: Seq<char>) -> CredentialErrorView {
    CredentialErrorView::Backend {
        reason: "parse expireTime `"@ + expire_time + "`: "@ + error,
    }
}

/// The lifetime that an expiry leaves at `now`. `parsed` is the expiry as Unix
/// time, or what is wrong with it.
pub fn ttl_at(expire_time: &str, parsed: Result<i64, String>, now: i64) -> (r: Result<
    u64,
    CredentialError,
>)
    ensures
        match parsed {
            Ok(until) => r == Ok::<u64, CredentialError>(seconds_until(until, now)),
            Err(error) => r matches Err(e) && e@ == bad_expiry(expire_time@, error@),
        },
{
    match parsed {
        Ok(until) => Ok(seconds_left(until, now)),
        Err(error) => Err(
            CredentialError::Backend {
                reason: "parse expireTime `".to_owned().concat(expire_time).concat("`: ").concat(
                    error.as_str(),
                ),
            },
        ),
    }
}

/// The lifetime that the expiry of an access token leaves at `now`, at least one
/// second.
pub fn expire_time_to_ttl_at(expire_time: &str, now: i64) -> (r: Result<u64, CredentialError>)
    ensures
        match rfc3339_timestamp(expire_time@) {
            Ok(until) => r == Ok::<u64, CredentialError>(seconds_until(until, now)),
            Err(error) => r matches Err(e) && e@ == bad_expiry(expire_time@, error),
        },
{
    ttl_at(expire_time, parse_rfc3339(expire_time), now)
}

/// The lifetime that the expiry of an access token leaves from now on, at least
/// one second. What time it is now, is not stated: it is the machine's clock.
pub fn expire_time_to_ttl(expire_time: &str) -> (r: Result<u64, CredentialError>)
    ensures
        match rfc3339_timestamp(expire_time@) {
            Ok(until) => r matches Ok(ttl) && exists|now: i64|
                now >= 0 && ttl == #[trigger] seconds_until(until, now),
            Err(error) => r matches Err(e) && e@ == bad_expiry(expire_time@, error),
        },
{
    expire_time_to_ttl_at(expire_time, unix_now())
}

/// The payload of a JSON web token: what stands between its first dot and the
/// next, or the end.
pub open spec fn jwt_payload(token: Seq<char>) -> Option<Seq<char>> {
    let dot = first_index(token, '.') as int;
    let rest = token.skip(dot + 1);
    if dot < token.len() {
        Some(rest.take(first_index(rest, '.') as int))
    } else {
        None
    }
}

/// The payload of a JSON web token.
pub fn payload_of(token: &str) -> (r: Option<String>)
    ensures
        opt_text(r) == jwt_payload(token@),
{
    let x: Vec<char> = chars_of(token);
    let dot: usize = find_char(x.as_slice(), '.');
    if dot == x.len() {
        return None;
    }
    let rest = vstd::slice::slice_subrange(x.as_slice(), dot + 1, x.len());
    assert(rest@ =~= token@.skip(dot + 1));
    let end: usize = find_char(rest, '.');
    let payload = vstd::slice::slice_subrange(rest, 0, end);
    assert(payload@ =~= rest@.take(end as int));
    Some(string_of(payload))
}

/// The expiry that a JSON web token carries, as Unix time.
pub open spec fn jwt_expiry(token: Seq<char>) -> Option<i64> {
    match jwt_payload(token) {
        Some(payload) => match base64url_bytes(payload) {
            Some(bytes) => json_integer(bytes, "exp"@),
            None => None,
        },
        None => None,
    }
}

/// Reads the expiry out of a JSON web token. The signature is not looked at.
pub fn token_expiry(token: &str) -> (r: Option<i64>)
    ensures
        r == jwt_expiry(token@),
{
    match payload_of(token) {
        Some(payload) => match decode_base64url(payload.as_str()) {
            Some(bytes) => read_json_integer(&bytes, "exp"),
            None => None,
        },
        None => None,
    }
}

/// The lifetime that an ID token has at `now`, where `exp` is the expiry that
/// it carries: up to that, or else the assumed one.
pub fn id_token_ttl_at(exp: Option<i64>, now: i64, fallback: u64) -> (r: u64)
    ensures
        r == match exp {
            Some(until) => seconds_until(until, now),
            None => fallback,
        },
{
    match exp {
        Some(until) => seconds_left(until, now),
        None => fallback,
    }
}

/// The lifetime that an ID token has from now on: up to the expiry that it
/// carries, at least one second, or the assumed one where it carries none. What
/// time it is now, is not stated: it is the machine's clock.
pub fn id_token_ttl(token: &str, fallback: u64) -> (r: u64)
    ensures
        match jwt_expiry(token@) {
            Some(until) => exists|now: i64| now >= 0 && r == #[trigger] seconds_until(until, now),
            None => r == fallback,
        },
{
    let exp: Option<i64> = token_expiry(token);
    id_token_ttl_at(exp, unix_now(), fallback)
}

/// A base token, and when it expires.
#[derive(Debug, Clone, PartialEq, Eq)]
pub struct CachedBaseToken {
    pub token: String,
    /// On the clock of the client, in nanoseconds. `None` means never.
    pub expires_at_ns: Option<u128>,
}

/// A [`CachedBaseToken`] with its token as a sequence of characters.
pub struct CachedBaseTokenView {
    pub token: Seq<char>,
    pub expires_at_ns: Option<u128>,
}

impl View for CachedBaseToken {
    type V = CachedBaseTokenView;

    open spec fn view(&self) -> CachedBaseTokenView {
        CachedBaseTokenView { token: self.token@, expires_at_ns: self.expires_at_ns }
    }
}

/// What the cache holds.
pub open spec fn cache_view(cache: Option<CachedBaseToken>) -> Option<CachedBaseTokenView> {
    match cache {
        Some(cached) => Some(cached@),
        None => None,
    }
}

/// A token that the API minted, and how long it lives.
#[derive(Debug, Clone, PartialEq, Eq)]
pub struct IssuedToken {
    pub token: String,
    pub ttl_seconds: u64,
}

/// Where the next base token comes from.
#[derive(Debug)]
pub enum BaseTokenSource {
    /// The token that the operator supplied.
    Token(CachedBaseToken),
    /// The metadata server, at this URL.
    Metadata { url: String },
}

/// What has to be done to have a base token.
#[derive(Debug)]
pub enum BearerStep {
    /// Nothing: this is it.
    Bearer(String),
    /// Ask the metadata server at this URL, and hand its answer to
    /// [`check_metadata_answer`] and [`store_fetched`].
    Fetch { url: String },
}

/// A [`BearerStep`] with its texts as sequences of characters.
pub enum BearerStepView {
    Bearer(Seq<char>),
    Fetch { url: Seq<char> },
}

impl View for BearerStep {
    type V = BearerStepView;

    open spec fn view(&self) -> BearerStepView {
        match self {
            BearerStep::Bearer(token) => BearerStepView::Bearer(token@),
            BearerStep::Fetch { url } => BearerStepView::Fetch { url: url@ },
        }
    }
}

/// What the metadata server says of a token.
#[derive(Debug, Clone)]
pub struct MetadataToken {
    pub access_token: String,
    /// Lifetime in seconds; zero where the reply does not tell.
    pub expires_in: u64,
}

/// What follows the answer of the IAM Credentials API.
#[derive(Debug)]
pub enum PostStep {
    /// Send the request once more, with a base token that is fetched anew.
    Retry,
    /// Read the body, and hand it to [`read_reply`] with this HTTP status.
    ReadBody { status: u16 },
    /// Give up: this is the failure.
    Failed(CredentialError),
}

/// A [`PostStep`] with its text as a sequence of characters.
pub enum PostStepView {
    Retry,
    ReadBody { status: u16 },
    Failed(CredentialErrorView),
}

impl View for PostStep {
    type V = PostStepView;

    open spec fn view(&self) -> PostStepView {
        match self {
            PostStep::Retry => PostStepView::Retry,
            PostStep::ReadBody { status } => PostStepView::ReadBody { status: *status },
            PostStep::Failed(e) => PostStepView::Failed(e@),
        }
    }
}

/// Whether an HTTP status reports success.
pub open spec fn is_success(status: u16) -> bool {
    200 <= status <= 299
}

/// Nanoseconds in a millisecond.
pub const NANOS_PER_MILLI: u128 = 1_000_000;

/// Nanoseconds in a second.
pub const NANOS_PER_SECOND: u128 = 1_000_000_000;

/// Whether a cached token may still be used at `now_ns`: more than the refresh
/// buffer is left of its life.
pub open spec fn is_fresh(
    cached: CachedBaseTokenView,
    refresh_buffer_ms: u64,
    now_ns: u64,
) -> bool {
    match cached.expires_at_ns {
        None => true,
        Some(expires_at_ns) => now_ns + refresh_buffer_ms * NANOS_PER_MILLI < expires_at_ns,
    }
}

/// Why the answer of the metadata server is of no use: there was none, and the
/// text says why, or its HTTP status reports no success.
pub open spec fn metadata_failure(sent: Result<u16, String>) -> Option<CredentialErrorView> {
    match sent {
        Err(error) => Some(
            CredentialErrorView::Backend { reason: "metadata server unreachable: "@ + error@ },
        ),
        Ok(status) => if is_success(status) {
            None
        } else {
            Some(
                CredentialErrorView::Backend {
                    reason: "metadata server returned HTTP "@ + decimal(status as nat),
                },
            )
        },
    }
}

/// Decides whether the body of the metadata server's answer is worth reading.
pub fn check_metadata_answer(sent: Result<u16, String>) -> (r: Result<(), CredentialError>)
    ensures
        match metadata_failure(sent) {
            Some(failure) => r matches Err(e) && e@ == failure,
            None => r is Ok,
        },
{
    match sent {
        Err(error) => Err(
            CredentialError::Backend {
                reason: "metadata server unreachable: ".to_owned().concat(error.as_str()),
            },
        ),
        Ok(status) => if status < 200 || status > 299 {
            Err(
                CredentialError::Backend {
                    reason: "metadata server returned HTTP ".to_owned().concat(
                        decimal_text(status as u64).as_str(),
                    ),
                },
            )
        } else {
            Ok(())
        },
    }
}

/// What is cached of a token that the metadata server handed out at `now_ns`.
pub open spec fn fetched_token(token: MetadataToken, now_ns: u64) -> CachedBaseTokenView {
    CachedBaseTokenView {
        token: token.access_token@,
        expires_at_ns: if token.expires_in > 0 {
            Some((now_ns + token.expires_in * NANOS_PER_SECOND) as u128)
        } else {
            None
        },
    }
}

/// Caches the token that the metadata server handed out at `now_ns`, and hands
/// it on. A reply that could not be decoded comes as the text that says why, and
/// leaves the cache as it was.
pub fn store_fetched(
    cache: &mut Option<CachedBaseToken>,
    decoded: Result<MetadataToken, String>,
    now_ns: u64,
) -> (r: Result<String, CredentialError>)
    ensures
        match decoded {
            Ok(token) => {
                &&& r == Ok::<String, CredentialError>(token.access_token)
                &&& cache_view(*final(cache)) == Some(fetched_token(token, now_ns))
            },
            Err(error) => {
                &&& r matches Err(e)
                &&& e@ == (CredentialErrorView::Backend {
                    reason: "parse metadata token response: "@ + error@,
                })
                &&& *final(cache) == *old(cache)
            },
        },
{
    match decoded {
        Err(error) => Err(
            CredentialError::Backend {
                reason: "parse metadata token response: ".to_owned().concat(error.as_str()),
            },
        ),
        Ok(token) => {
            let expires_at_ns: Option<u128> = if token.expires_in > 0 {
                Some(now_ns as u128 + token.expires_in as u128 * NANOS_PER_SECOND)
            } else {
                None
            };
            let bearer: String = token.access_token.clone();
            *cache = Some(CachedBaseToken { token: token.access_token, expires_at_ns });
            Ok(bearer)
        },
    }
}

/// Forgets the cached base token.
pub fn invalidate_base(cache: &mut Option<CachedBaseToken>)
    ensures
        *final(cache) is None,
{
    *cache = None;
}

/// What follows the answer of the IAM Credentials API, where `retried` tells
/// whether the request was sent before: there is no answer, and the text says
/// why, or it has this HTTP status.
pub open spec fn answer_step(retried: bool, sent: Result<u16, String>) -> PostStepView {
    match sent {
        Err(error) => PostStepView::Failed(
            CredentialErrorView::Backend {
                reason: "IAM Credentials endpoint unreachable: "@ + error@,
            },
        ),
        Ok(status) => if status == 401 && !retried {
            PostStepView::Retry
        } else {
            PostStepView::ReadBody { status }
        },
    }
}

/// One request to the IAM Credentials API, which is sent again once where the
/// base token turns out to be stale.
#[derive(Debug)]
pub struct PostIam {
    /// Whether the request was sent before.
    pub retried: bool,
}

impl PostIam {
    /// A request that was not sent yet.
    pub fn begin() -> (r: Self)
        ensures
            !r.retried,
    {
        PostIam { retried: false }
    }

    /// What has to be done to have a base token for the request. When it is
    /// sent again, a cached one will not do.
    pub fn bearer(
        &self,
        client: &GcpClient,
        cache: &mut Option<CachedBaseToken>,
        now_ns: u64,
    ) -> (r: BearerStep)
        ensures
            (r@, cache_view(*final(cache))) == bearer_step(
                *client,
                cache_view(*old(cache)),
                self.retried,
                now_ns,
            ),
    {
        client.base_bearer(cache, self.retried, now_ns)
    }

    /// Decides what follows the answer. Before a retry the cached base token is
    /// forgotten.
    pub fn answered(
        &mut self,
        cache: &mut Option<CachedBaseToken>,
        sent: Result<u16, String>,
    ) -> (r: PostStep)
        ensures
            r@ == answer_step(old(self).retried, sent),
            r@ is Retry ==> final(self).retried && *final(cache) is None,
            r@ !is Retry ==> *final(self) == *old(self) && *final(cache) == *old(cache),
    {
        match sent {
            Err(error) => PostStep::Failed(
                CredentialError::Backend {
                    reason: "IAM Credentials endpoint unreachable: ".to_owned().concat(
                        error.as_str(),
                    ),
                },
            ),
            Ok(status) => {
                if status == 401 && !self.retried {
                    self.retried = true;
                    invalidate_base(cache);
                    PostStep::Retry
                } else {
                    PostStep::ReadBody { status }
                }
            },
        }
    }
}

/// What the body of an answer with an HTTP status means: the reply, or a
/// failure. A body that could not be read comes as the text that says why.
pub open spec fn reply(status: u16, body: Result<String, String>) -> Result<
    Seq<char>,
    CredentialErrorView,
> {
    if is_success(status) {
        match body {
            Ok(text) => Ok(text@),
            Err(error) => Err(
                CredentialErrorView::Backend {
                    reason: "read IAM Credentials response: "@ + error@,
                },
            ),
        }
    } else {
        match body {
            Ok(text) => Err(gcp_error(status, error_status(text@))),
            Err(_) => Err(gcp_error(status, error_status(Seq::empty()))),
        }
    }
}

/// Takes the reply out of the body of an answer, or the failure.
pub fn read_reply(status: u16, body: Result<String, String>) -> (r: Result<String, CredentialError>)
    ensures
        match reply(status, body) {
            Ok(text) => r matches Ok(found) && found@ == text,
            Err(failure) => r matches Err(e) && e@ == failure,
        },
{
    if status < 200 || status > 299 {
        let text: String = match body {
            Ok(text) => text,
            Err(_) => String::new(),
        };
        return Err(map_gcp_error(status, text.as_str()));
    }
    match body {
        Ok(text) => Ok(text),
        Err(error) => Err(
            CredentialError::Backend {
                reason: "read IAM Credentials response: ".to_owned().concat(error.as_str()),
            },
        ),
    }
}

/// A value in the body of a request.
#[derive(Debug, Clone, PartialEq, Eq)]
pub enum BodyValue {
    Text(String),
    Flag(bool),
    List(Vec<String>),
}

/// A [`BodyValue`] with its texts as sequences of characters.
pub enum BodyValueView {
    Text(Seq<char>),
    Flag(bool),
    List(Seq<Seq<char>>),
}

impl View for BodyValue {
    type V = BodyValueView;

    open spec fn view(&self) -> BodyValueView {
        match self {
            BodyValue::Text(text) => BodyValueView::Text(text@),
            BodyValue::Flag(flag) => BodyValueView::Flag(*flag),
            BodyValue::List(list) => BodyValueView::List(texts(list@)),
        }
    }
}

/// A request to the IAM Credentials API: the URL, and the members of the JSON
/// object that is posted to it.
#[derive(Debug, Clone)]
pub struct IamRequest {
    pub url: String,
    pub body: NameMap<BodyValue>,
}

/// An [`IamRequest`] with its texts as sequences of characters.
pub struct IamRequestView {
    pub url: Seq<char>,
    pub body: Map<Seq<char>, BodyValueView>,
}

impl View for IamRequest {
    type V = IamRequestView;

    open spec fn view(&self) -> IamRequestView {
        IamRequestView { url: self.url@, body: body_view(self.body@) }
    }
}

/// The members of a request body, with their texts as sequences of characters.
pub open spec fn body_view(body: Map<Seq<char>, BodyValue>) -> Map<Seq<char>, BodyValueView> {
    body.map_values(|value: BodyValue| value@)
}

/// The resource names of delegates.
pub open spec fn resource_names(delegates: Seq<String>) -> Seq<Seq<char>> {
    delegates.map_values(|d: String| resource_name(d@))
}

/// `body`, with the delegation chain where there is one.
pub open spec fn with_delegates(
    body: Map<Seq<char>, BodyValueView>,
    delegates: Seq<String>,
) -> Map<Seq<char>, BodyValueView> {
    if delegates.len() > 0 {
        body.insert("delegates"@, BodyValueView::List(resource_names(delegates)))
    } else {
        body
    }
}

/// The body of a request for an access token.
pub open spec fn access_token_body(
    scopes: Seq<String>,
    lifetime_seconds: Option<u32>,
    delegates: Seq<String>,
) -> Map<Seq<char>, BodyValueView> {
    let scope = Map::<Seq<char>, BodyValueView>::empty().insert(
        "scope"@,
        BodyValueView::List(texts(scopes)),
    );
    let timed = match lifetime_seconds {
        Some(l) => scope.insert("lifetime"@, BodyValueView::Text(decimal(l as nat) + "s"@)),
        None => scope,
    };
    with_delegates(timed, delegates)
}

/// The body of a request for an ID token.
pub open spec fn id_token_body(
    audience: Seq<char>,
    include_email: bool,
    delegates: Seq<String>,
) -> Map<Seq<char>, BodyValueView> {
    with_delegates(
        Map::<Seq<char>, BodyValueView>::empty().insert(
            "audience"@,
            BodyValueView::Text(audience),
        ).insert("includeEmail"@, BodyValueView::Flag(include_email)),
        delegates,
    )
}

/// The URL of an action on a service account.
pub open spec fn action_url(endpoint: Seq<char>, sa: Seq<char>, action: Seq<char>) -> Seq<char> {
    endpoint + "/v1/projects/-/serviceAccounts/"@ + encoded_segment(sa) + action
}

/// The URL of the metadata server's token for an account.
pub open spec fn metadata_url(endpoint: Seq<char>, sa: Seq<char>) -> Seq<char> {
    without_trailing_slashes(endpoint) + "/computeMetadata/v1/instance/service-accounts/"@ + sa
        + "/token"@
}

fn put(body: &mut NameMap<BodyValue>, name: &str, value: BodyValue)
    ensures
        body_view(final(body)@) == body_view(old(body)@).insert(name@, value@),
{
    let ghost before = body@;
    body.insert(name.to_owned(), value);
    assert(body_view(body@) =~= body_view(before).insert(name@, value@));
}

fn put_delegates(body: &mut NameMap<BodyValue>, delegates: &Vec<String>)
    ensures
        body_view(final(body)@) == with_delegates(body_view(old(body)@), delegates@),
{
    if delegates.len() == 0 {
        return ;
    }
    let mut names: Vec<String> = Vec::new();
    let mut i: usize = 0;
    while i < delegates.len()
        invariant
            i <= delegates@.len(),
            names@.len() == i,
            forall|j: int|
                0 <= j < i ==> (#[trigger] names@[j])@ == resource_name(delegates@[j]@),
        decreases delegates@.len() - i,
    {
        names.push(delegate_resource_name(delegates[i].as_str()));
        i = i + 1;
    }
    assert(texts(names@) =~= resource_names(delegates@));
    put(body, "delegates", BodyValue::List(names));
}

/// Builds the calls of the IAM Credentials API for one configuration.
#[derive(Debug)]
pub struct GcpClient {
    /// Host of the API, without slashes at its end.
    pub iam_endpoint: String,
    pub refresh_buffer_ms: u64,
    pub base: BaseAuth,
}

/// What has to be done to have a base token, and what the cache holds then.
pub open spec fn bearer_step(
    client: GcpClient,
    cached: Option<CachedBaseTokenView>,
    force_refresh: bool,
    now_ns: u64,
) -> (BearerStepView, Option<CachedBaseTokenView>) {
    if !force_refresh && cached is Some && is_fresh(cached->0, client.refresh_buffer_ms, now_ns) {
        (BearerStepView::Bearer(cached->0.token), cached)
    } else {
        match client.base {
            BaseAuth::StaticAccessToken { access_token } => (
                BearerStepView::Bearer(access_token@),
                Some(CachedBaseTokenView { token: access_token@, expires_at_ns: None }),
            ),
            BaseAuth::MetadataServer { endpoint, service_account } => (
                BearerStepView::Fetch { url: metadata_url(endpoint@, service_account@) },
                cached,
            ),
        }
    }
}

impl GcpClient {
    /// The client of a configuration.
    pub fn new(config: &GcpImpersonationConfig) -> (r: Self)
        ensures
            r.iam_endpoint@ == without_trailing_slashes(config.iam_credentials_endpoint@),
            r.refresh_buffer_ms == config.refresh_buffer_ms,
            r.base == config.base_auth,
    {
        let base: BaseAuth = match &config.base_auth {
            BaseAuth::MetadataServer { endpoint, service_account } => BaseAuth::MetadataServer {
                endpoint: endpoint.clone(),
                service_account: service_account.clone(),
            },
            BaseAuth::StaticAccessToken { access_token } => BaseAuth::StaticAccessToken {
                access_token: access_token.clone(),
            },
        };
        GcpClient {
            iam_endpoint: trim_trailing_slashes(config.iam_credentials_endpoint.as_str()),
            refresh_buffer_ms: config.refresh_buffer_ms,
            base,
        }
    }

    /// Where the next base token comes from.
    pub fn fetch_base_token(&self) -> (r: BaseTokenSource)
        ensures
            match self.base {
                BaseAuth::StaticAccessToken { access_token } => {
                    &&& r matches BaseTokenSource::Token(cached)
                    &&& cached@ == (CachedBaseTokenView {
                        token: access_token@,
                        expires_at_ns: None,
                    })
                },
                BaseAuth::MetadataServer { endpoint, service_account } => {
                    &&& r matches BaseTokenSource::Metadata { url }
                    &&& url@ == metadata_url(endpoint@, service_account@)
                },
            },
    {
        match &self.base {
            BaseAuth::StaticAccessToken { access_token } => BaseTokenSource::Token(
                CachedBaseToken { token: access_token.clone(), expires_at_ns: None },
            ),
            BaseAuth::MetadataServer { endpoint, service_account } => BaseTokenSource::Metadata {
                url: trim_trailing_slashes(endpoint.as_str()).concat(
                    "/computeMetadata/v1/instance/service-accounts/",
                ).concat(service_account.as_str()).concat("/token"),
            },
        }
    }

    /// Takes the base token out of the cache while it is fresh, unless a
    /// refresh is forced; else from its source.
    pub fn base_bearer(
        &self,
        cache: &mut Option<CachedBaseToken>,
        force_refresh: bool,
        now_ns: u64,
    ) -> (r: BearerStep)
        ensures
            (r@, cache_view(*final(cache))) == bearer_step(
                *self,
                cache_view(*old(cache)),
                force_refresh,
                now_ns,
            ),
    {
        if !force_refresh {
            if let Some(cached) = &*cache {
                let fresh: bool = match cached.expires_at_ns {
                    None => true,
                    Some(expires_at_ns) => now_ns as u128 + self.refresh_buffer_ms as u128
                        * NANOS_PER_MILLI < expires_at_ns,
                };
                if fresh {
                    return BearerStep::Bearer(cached.token.clone());
                }
            }
        }
        match self.fetch_base_token() {
            BaseTokenSource::Token(cached) => {
                let token: String = cached.token.clone();
                *cache = Some(cached);
                BearerStep::Bearer(token)
            },
            BaseTokenSource::Metadata { url } => BearerStep::Fetch { url },
        }
    }

    fn url_of(&self, sa: &str, action: &str) -> (r: String)
        ensures
            r@ == action_url(self.iam_endpoint@, sa@, action@),
    {
        self.iam_endpoint.clone().concat("/v1/projects/-/serviceAccounts/").concat(
            encode_sa(sa).as_str(),
        ).concat(action)
    }

    /// The request that mints an access token for the service account `sa`.
    pub fn generate_access_token(
        &self,
        sa: &str,
        scopes: &Vec<String>,
        lifetime_seconds: Option<u32>,
        delegates: &Vec<String>,
    ) -> (r: IamRequest)
        ensures
            r@ == (IamRequestView {
                url: action_url(self.iam_endpoint@, sa@, ":generateAccessToken"@),
                body: access_token_body(scopes@, lifetime_seconds, delegates@),
            }),
    {
        let url: String = self.url_of(sa, ":generateAccessToken");
        let mut body: NameMap<BodyValue> = NameMap::new();
        assert(body_view(body@) =~= Map::<Seq<char>, BodyValueView>::empty());
        put(&mut body, "scope", BodyValue::List(copy_list(scopes)));
        if let Some(l) = lifetime_seconds {
            put(&mut body, "lifetime", BodyValue::Text(decimal_text(l as u64).concat("s")));
        }
        put_delegates(&mut body, delegates);
        IamRequest { url, body }
    }

    /// The request that mints an ID token for the service account `sa`.
    pub fn generate_id_token(
        &self,
        sa: &str,
        audience: &str,
        include_email: bool,
        delegates: &Vec<String>,
    ) -> (r: IamRequest)
        ensures
            r@ == (IamRequestView {
                url: action_url(self.iam_endpoint@, sa@, ":generateIdToken"@),
                body: id_token_body(audience@, include_email, delegates@),
            }),
    {
        let url: String = self.url_of(sa, ":generateIdToken");
        let mut body: NameMap<BodyValue> = NameMap::new();
        assert(body_view(body@) =~= Map::<Seq<char>, BodyValueView>::empty());
        put(&mut body, "audience", BodyValue::Text(audience.to_owned()));
        put(&mut body, "includeEmail", BodyValue::Flag(include_email));
        put_delegates(&mut body, delegates);
        IamRequest { url, body }
    }
}

/// What the API says of an access token that it minted.
#[derive(Debug, Clone)]
pub struct AccessTokenReply {
    pub access_token: String,
    /// When the token expires, in RFC 3339 form.
    pub expire_time: String,
}

/// What a reply that could not be decoded means.
pub open spec fn undecodable(action: Seq<char>, error: Seq<char>) -> CredentialErrorView {
    CredentialErrorView::Backend { reason: "parse "@ + action + " response: "@ + error }
}

fn undecodable_reply(action: &str, error: &str) -> (r: CredentialError)
    ensures
        r@ == undecodable(action@, error@),
{
    CredentialError::Backend {
        reason: "parse ".to_owned().concat(action).concat(" response: ").concat(error),
    }
}

/// The access token in a decoded reply, with the lifetime that is left of it at
/// `now`. A reply that could not be decoded comes as the text that says why.
pub fn accept_access_token_at(decoded: Result<AccessTokenReply, String>, now: i64) -> (r: Result<
    IssuedToken,
    CredentialError,
>)
    ensures
        match decoded {
            Err(error) => r matches Err(e) && e@ == undecodable("generateAccessToken"@, error@),
            Ok(reply) => match rfc3339_timestamp(reply.expire_time@) {
                Err(error) => r matches Err(e) && e@ == bad_expiry(reply.expire_time@, error),
                Ok(until) => {
                    &&& r matches Ok(issued)
                    &&& issued.token == reply.access_token
                    &&& issued.ttl_seconds == seconds_until(until, now)
                },
            },
        },
{
    match decoded {
        Err(error) => Err(undecodable_reply("generateAccessToken", error.as_str())),
        Ok(reply) => match expire_time_to_ttl_at(reply.expire_time.as_str(), now) {
            Ok(ttl_seconds) => Ok(IssuedToken { token: reply.access_token, ttl_seconds }),
            Err(e) => Err(e),
        },
    }
}

/// The access token in a decoded reply, with the lifetime that is left of it
/// now. What time that is, is not stated: it is the machine's clock.
pub fn accept_access_token(decoded: Result<AccessTokenReply, String>) -> (r: Result<
    IssuedToken,
    CredentialError,
>)
    ensures
        match decoded {
            Err(error) => r matches Err(e) && e@ == undecodable("generateAccessToken"@, error@),
            Ok(reply) => match rfc3339_timestamp(reply.expire_time@) {
                Err(error) => r matches Err(e) && e@ == bad_expiry(reply.expire_time@, error),
                Ok(until) => {
                    &&& r matches Ok(issued)
                    &&& issued.token == reply.access_token
                    &&& exists|now: i64|
                        now >= 0 && issued.ttl_seconds == #[trigger] seconds_until(until, now)
                },
            },
        },
{
    accept_access_token_at(decoded, unix_now())
}

/// The ID token in a decoded reply, with the lifetime that is left of it at
/// `now`. A reply that could not be decoded comes as the text that says why.
pub fn accept_id_token_at(decoded: Result<String, String>, assumed_ttl: u64, now: i64) -> (r:
    Result<IssuedToken, CredentialError>)
    ensures
        match decoded {
            Err(error) => r matches Err(e) && e@ == undecodable("generateIdToken"@, error@),
            Ok(token) => {
                &&& r matches Ok(issued)
                &&& issued.token == token
                &&& issued.ttl_seconds == match jwt_expiry(token@) {
                    Some(until) => seconds_until(until, now),
                    None => assumed_ttl,
                }
            },
        },
{
    match decoded {
        Err(error) => Err(undecodable_reply("generateIdToken", error.as_str())),
        Ok(token) => {
            let exp: Option<i64> = token_expiry(token.as_str());
            let ttl_seconds: u64 = id_token_ttl_at(exp, now, assumed_ttl);
            Ok(IssuedToken { token, ttl_seconds })
        },
    }
}

/// The ID token in a decoded reply, with the lifetime that is left of it now.
/// What time that is, is not stated: it is the machine's clock.
pub fn accept_id_token(decoded: Result<String, String>, assumed_ttl: u64) -> (r: Result<
    IssuedToken,
    CredentialError,
>)
    ensures
        match decoded {
            Err(error) => r matches Err(e) && e@ == undecodable("generateIdToken"@, error@),
            Ok(token) => {
                &&& r matches Ok(issued)
                &&& issued.token == token
                &&& match jwt_expiry(token@) {
                    Some(until) => exists|now: i64|
                        now >= 0 && issued.ttl_seconds == #[trigger] seconds_until(until, now),
                    None => issued.ttl_seconds == assumed_ttl,
                }
            },
        },
{
    accept_id_token_at(decoded, assumed_ttl, unix_now())
}

} // verus!
