//! What holds of the parts together: of every caller, every configuration and
//! every sequence of calls.
//!
//! - [`callers`]: what is read off a caller, and which account that selects.
//! - [`calls`]: where the calls go, what they carry, what comes of the answers.
//! - [`configurations`]: which are accepted, and what is said of the others.
//! - [`credentials`]: who is granted what, and what is issued.
//! - [`loading`]: what is made of a configuration.
//! - [`operations`]: what the operations hand back for what they are given.
//! - [`texts`]: numbers, lists and names.

use crate::client::{
    answer_step, bearer_step, encoded_byte, encoded_bytes, encoded_segment, error_status,
    fetched_token, gcp_error, hex_digit, is_success, is_unreserved, jwt_payload, metadata_url,
    reply, seconds_until, BearerStepView, CachedBaseTokenView, GcpClient, MetadataToken,
    NANOS_PER_MILLI, NANOS_PER_SECOND,
};
use crate::config::{
    base_auth_error, base_error, behind_last, behind_last_is_longest, called_host, ends_authority,
    first_non_delegate, first_non_email, has_user, host_behind_user, host_text, is_api_endpoint,
    is_default_base_auth, is_endpoint, is_fault, is_first_faulty, is_metadata_account,
    is_plain_http_host, is_this_machine, is_valid, lifetime_limit, target_error, url_authority,
    url_authority_is_longest, BaseAuth, ConfigErrorView, GcpImpersonationConfig,
    IdentityMapping, TargetConfig, TokenKind, MAX_CACHE_TTL_MS,
};
use crate::identity_mapping::{
    all_name_chars, expand, field_value, has_double_dot, indexed, is_delegate, is_domain_char,
    is_name_char, is_sa_email, is_sa_email_with_at, opens_placeholder, placeholder_field,
    resolution, resource_name, with_prefix, Expansion, ResolutionView, RESOURCE_PREFIX,
};
use crate::name_map::name_order_is_total;
use crate::plugin::{
    capped_ttl, credential, grant, is_control_char, is_listed, is_trusted, kind_name,
    refusal_error, subject_label, token_request, without_controls, RefusalView,
    MAX_SUBJECT_CHARS,
};
use crate::protocol::{CredentialErrorView, PluginIdentity};
use crate::text::{
    decimal, digits_value, first_index, first_index_is_first, first_index_is_unique, index_value,
    is_digit,
};
use vstd::prelude::*;
use vstd::utf8::{encode_utf8, is_ascii_chars};

pub mod callers;
pub mod calls;
pub mod configurations;
pub mod credentials;
pub mod loading;
pub mod operations;
pub mod texts;

verus! {

// Who may have which account impersonated.

/// An account that comes from the caller's identity is impersonated only for a
/// trusted caller: any other caller is refused, whatever the account, and told
/// that they are not authorized.
pub proof fn derived_accounts_take_a_trusted_caller(
    config: GcpImpersonationConfig,
    identity: PluginIdentity,
    target_name: Seq<char>,
)
    requires
        config.targets@.dom().contains(target_name),
        resolution(identity, config.targets@[target_name]) matches ResolutionView::Target {
            identity_derived: true,
            ..
        },
        !is_trusted(identity),
    ensures
        grant(config, identity, target_name) matches Err(refusal) && refusal_error(
            refusal,
        ) is NotAuthorized,
{
}

/// Whatever is impersonated is the well-formed email of a service account.
pub proof fn granted_accounts_are_well_formed(
    config: GcpImpersonationConfig,
    identity: PluginIdentity,
    target_name: Seq<char>,
)
    ensures
        grant(config, identity, target_name) matches Ok(email) ==> is_sa_email(email),
{
}

/// Where a target has an allowlist, an account that comes from the caller's
/// identity is impersonated only if it is on the list.
pub proof fn derived_accounts_are_on_the_allowlist(
    config: GcpImpersonationConfig,
    identity: PluginIdentity,
    target_name: Seq<char>,
    email: Seq<char>,
)
    requires
        grant(config, identity, target_name) == Ok::<Seq<char>, RefusalView>(email),
        resolution(identity, config.targets@[target_name]) matches ResolutionView::Target {
            identity_derived: true,
            ..
        },
    ensures
        is_listed(config.targets@[target_name], email),
{
}

/// An account that does not come from the caller's identity is the one that the
/// operator configured for the target.
pub proof fn other_accounts_are_the_operators(identity: PluginIdentity, target: TargetConfig)
    ensures
        resolution(identity, target) matches ResolutionView::Target {
            email,
            identity_derived: false,
        } ==> email == target.service_account@,
{
}

/// An account that the operator fixed is exempt from the allowlist and from the
/// demand for a trusted caller: in a valid configuration it is always granted.
pub proof fn operator_fixed_accounts_are_exempt(
    config: GcpImpersonationConfig,
    identity: PluginIdentity,
    target_name: Seq<char>,
)
    requires
        is_valid(config),
        config.targets@.dom().contains(target_name),
        resolution(identity, config.targets@[target_name]) matches ResolutionView::Target {
            identity_derived: false,
            ..
        },
    ensures
        grant(config, identity, target_name) == Ok::<Seq<char>, RefusalView>(
            config.targets@[target_name].service_account@,
        ),
{
    assert(target_error(target_name, config.targets@[target_name]) is None);
}

/// A target with a static mapping impersonates the same account for every
/// caller.
pub proof fn static_targets_ignore_the_caller(
    config: GcpImpersonationConfig,
    target_name: Seq<char>,
    a: PluginIdentity,
    b: PluginIdentity,
)
    requires
        config.targets@.dom().contains(target_name),
        config.targets@[target_name].identity_mapping == IdentityMapping::Static,
    ensures
        grant(config, a, target_name) == grant(config, b, target_name),
{
}

/// A refusal is one of authorization, but for a target that is not there.
pub proof fn refusals_are_of_authorization(
    config: GcpImpersonationConfig,
    identity: PluginIdentity,
    target_name: Seq<char>,
)
    ensures
        grant(config, identity, target_name) matches Err(refusal) ==> {
            if config.targets@.dom().contains(target_name) {
                refusal_error(refusal) is NotAuthorized
            } else {
                refusal_error(refusal) is Misconfigured
            }
        },
{
}

// Emails, and where they stand in a URL.

/// Whether a character could end a path segment, or change what it means.
pub open spec fn breaks_out(c: char) -> bool {
    ||| c == '/'
    ||| c == ':'
    ||| c == '%'
    ||| c == '?'
    ||| c == '#'
    ||| c <= ' '
    ||| c >= '\u{7f}'
}

/// The email of a service account holds one at sign, nothing that could break
/// out of a path segment, and no two dots in a row.
pub proof fn emails_stay_in_their_segment(email: Seq<char>)
    requires
        is_sa_email(email),
    ensures
        forall|i: int| 0 <= i < email.len() ==> !breaks_out(#[trigger] email[i]),
        forall|i: int, j: int|
            0 <= i < email.len() && 0 <= j < email.len() && #[trigger] email[i] == '@'
                && #[trigger] email[j] == '@' ==> i == j,
        !has_double_dot(email),
{
    let at = choose|at: int| is_sa_email_with_at(email, at);
    let domain = email.skip(at + 1);
    assert forall|i: int| 0 <= i < email.len() && i != at implies is_domain_char(
        #[trigger] email[i],
    ) && (i < at ==> is_name_char(email[i])) by {
        if i < at {
            assert(email.take(at)[i] == email[i]);
        } else {
            assert(domain[i - at - 1] == email[i]);
        }
    }
    if has_double_dot(email) {
        let i = choose|i: int|
            0 <= i < email.len() - 1 && #[trigger] email[i] == '.' && email[i + 1] == '.';
        if i < at {
            assert(is_name_char(email[i]));
        } else {
            assert(domain[i - at - 1] == '.' && domain[i - at] == '.');
            assert(has_double_dot(domain));
        }
    }
}

proof fn lemma_encoded_prefix(bytes: Seq<u8>, k: int)
    requires
        0 <= k <= bytes.len(),
    ensures
        encoded_bytes(bytes) == encoded_bytes(bytes.take(k)) + encoded_bytes(bytes.skip(k)),
    decreases bytes.len() - k,
{
    if k == bytes.len() {
        assert(bytes.take(k) =~= bytes);
        assert(encoded_bytes(bytes) + Seq::<char>::empty() =~= encoded_bytes(bytes));
    } else {
        let short = bytes.drop_last();
        lemma_encoded_prefix(short, k);
        assert(short.take(k) =~= bytes.take(k));
        assert(short.skip(k) =~= bytes.skip(k).drop_last());
        assert(encoded_bytes(bytes.take(k)) + (encoded_bytes(short.skip(k)) + encoded_byte(
            bytes.last(),
        )) =~= (encoded_bytes(bytes.take(k)) + encoded_bytes(short.skip(k))) + encoded_byte(
            bytes.last(),
        ));
    }
}

/// Of a well-formed email, encoding changes the at sign alone.
pub proof fn encoding_an_email_changes_the_at_sign_alone(email: Seq<char>, at: int)
    requires
        is_sa_email_with_at(email, at),
    ensures
        encoded_segment(email) == email.take(at) + "%40"@ + email.skip(at + 1),
{
    reveal_strlit("%40");
    let name = email.take(at);
    let domain = email.skip(at + 1);
    let bytes = encode_utf8(email);
    assert forall|i: int| 0 <= i < email.len() implies '\0' <= #[trigger] email[i] <= '\u{7f}' by {
        if i < at {
            assert(name[i] == email[i]);
        } else if i > at {
            assert(domain[i - at - 1] == email[i]);
        }
    }
    assert(is_ascii_chars(email));
    vstd::utf8::is_ascii_chars_encode_utf8(email);
    lemma_encoded_prefix(bytes, at);
    lemma_encoded_prefix(bytes.skip(at), 1);
    assert(bytes.skip(at).skip(1) =~= bytes.skip(at + 1));
    assert(bytes.skip(at).take(1) =~= seq![64u8]);
    assert(seq![64u8].drop_last() =~= Seq::<u8>::empty());
    assert(encoded_bytes(seq![64u8]) =~= "%40"@) by {
        reveal_with_fuel(encoded_bytes, 2);
    }
    assert(bytes.take(at) =~= encode_utf8(name)) by {
        vstd::utf8::is_ascii_chars_encode_utf8(name);
    }
    lemma_plain_bytes(name, bytes.take(at));
    lemma_plain_bytes(domain, bytes.skip(at + 1));
    assert(encoded_segment(email) =~= name + ("%40"@ + domain));
    assert(name + ("%40"@ + domain) =~= name + "%40"@ + domain);
}

proof fn lemma_plain_bytes(s: Seq<char>, bytes: Seq<u8>)
    requires
        s.len() == bytes.len(),
        forall|i: int| 0 <= i < s.len() ==> is_domain_char(#[trigger] s[i]),
        forall|i: int| 0 <= i < s.len() ==> #[trigger] bytes[i] == s[i] as u8,
    ensures
        encoded_bytes(bytes) == s,
    decreases s.len(),
{
    if s.len() > 0 {
        lemma_plain_bytes(s.drop_last(), bytes.drop_last());
        let i = s.len() - 1;
        assert(bytes[i] == s[i] as u8);
        assert(is_domain_char(s[i]));
        assert(encoded_byte(bytes.last()) =~= seq![s.last()]);
        assert(encoded_bytes(bytes) =~= s);
    } else {
        assert(encoded_bytes(bytes) =~= s);
    }
}

/// What an encoded segment is made of: characters that stand for themselves, and
/// percent signs.
pub open spec fn is_segment_char(c: char) -> bool {
    ||| 'A' <= c <= 'Z'
    ||| 'a' <= c <= 'z'
    ||| '0' <= c <= '9'
    ||| c == '-'
    ||| c == '.'
    ||| c == '_'
    ||| c == '~'
    ||| c == '%'
}

/// Whatever is encoded stays in its path segment: no character of the result
/// could end it.
pub proof fn encoded_segments_hold_no_separator(s: Seq<char>)
    ensures
        forall|i: int|
            0 <= i < encoded_segment(s).len() ==> is_segment_char(#[trigger] encoded_segment(s)[i]),
{
    lemma_encoded_chars(encode_utf8(s));
}

proof fn lemma_encoded_chars(bytes: Seq<u8>)
    ensures
        forall|i: int|
            0 <= i < encoded_bytes(bytes).len() ==> is_segment_char(
                #[trigger] encoded_bytes(bytes)[i],
            ),
    decreases bytes.len(),
{
    if bytes.len() > 0 {
        lemma_encoded_chars(bytes.drop_last());
        let b = bytes.last();
        assert forall|i: int| 0 <= i < encoded_byte(b).len() implies is_segment_char(
            #[trigger] encoded_byte(b)[i],
        ) by {}
        let before = encoded_bytes(bytes.drop_last());
        assert forall|i: int| 0 <= i < encoded_bytes(bytes).len() implies is_segment_char(
            #[trigger] encoded_bytes(bytes)[i],
        ) by {
            if i < before.len() {
                assert(encoded_bytes(bytes)[i] == before[i]);
            } else {
                assert(encoded_bytes(bytes)[i] == encoded_byte(b)[i - before.len()]);
            }
        }
    }
}

/// The value of a hexadecimal digit.
pub open spec fn hex_value(c: char) -> Option<int> {
    if '0' <= c <= '9' {
        Some(c as int - 48)
    } else if 'A' <= c <= 'F' {
        Some(c as int - 55)
    } else if 'a' <= c <= 'f' {
        Some(c as int - 87)
    } else {
        None
    }
}

/// The bytes that a percent-encoded text stands for, if it is well-formed: each
/// percent sign has two hexadecimal digits behind it, and all is ASCII.
pub open spec fn percent_decoded(s: Seq<char>) -> Option<Seq<u8>>
    decreases s.len(),
{
    if s.len() == 0 {
        Some(Seq::empty())
    } else if s[0] == '%' {
        if s.len() < 3 {
            None
        } else {
            match (hex_value(s[1]), hex_value(s[2]), percent_decoded(s.skip(3))) {
                (Some(high), Some(low), Some(rest)) => Some(
                    seq![(high * 16 + low) as u8] + rest,
                ),
                _ => None,
            }
        }
    } else if s[0] <= '\u{7f}' {
        match percent_decoded(s.skip(1)) {
            Some(rest) => Some(seq![s[0] as u8] + rest),
            None => None,
        }
    } else {
        None
    }
}

proof fn lemma_encoded_first(bytes: Seq<u8>)
    requires
        bytes.len() > 0,
    ensures
        encoded_bytes(bytes) == encoded_byte(bytes[0]) + encoded_bytes(bytes.skip(1)),
{
    lemma_encoded_prefix(bytes, 1);
    assert(bytes.take(1) =~= seq![bytes[0]]);
    assert(bytes.take(1).drop_last() =~= Seq::<u8>::empty());
    reveal_with_fuel(encoded_bytes, 2);
    assert(encoded_bytes(bytes.take(1)) =~= encoded_byte(bytes[0]));
}

proof fn lemma_decoded_bytes(bytes: Seq<u8>)
    ensures
        percent_decoded(encoded_bytes(bytes)) == Some(bytes),
    decreases bytes.len(),
{
    let e = encoded_bytes(bytes);
    if bytes.len() == 0 {
        assert(bytes =~= Seq::<u8>::empty());
    } else {
        let b = bytes[0];
        let rest = bytes.skip(1);
        lemma_encoded_first(bytes);
        lemma_decoded_bytes(rest);
        assert(e[0] == encoded_byte(b)[0]);
        assert(e.skip(encoded_byte(b).len() as int) =~= encoded_bytes(rest));
        assert(bytes =~= seq![b] + rest);
        if is_unreserved(b) {
            assert(e[0] == b as char);
            assert(e[0] as u8 == b);
        } else {
            assert(e[1] == encoded_byte(b)[1]);
            assert(e[2] == encoded_byte(b)[2]);
            assert(hex_value(hex_digit(b as int / 16)) == Some(b as int / 16));
            assert(hex_value(hex_digit(b as int % 16)) == Some(b as int % 16));
        }
    }
}

/// To decode what was encoded gives the bytes of the text back.
pub proof fn encoded_segments_are_decoded(s: Seq<char>)
    ensures
        percent_decoded(encoded_segment(s)) == Some(encode_utf8(s)),
{
    lemma_decoded_bytes(encode_utf8(s));
}

/// Whether a character is one of the upper-case hexadecimal digits.
pub open spec fn is_upper_hex(c: char) -> bool {
    '0' <= c <= '9' || 'A' <= c <= 'F'
}

/// Whether a percent sign at `i`, if there is one, has two upper-case
/// hexadecimal digits behind it.
pub open spec fn is_escape_at(s: Seq<char>, i: int) -> bool {
    s[i] == '%' ==> i + 2 < s.len() && is_upper_hex(s[i + 1]) && is_upper_hex(s[i + 2])
}

/// In an encoded segment each percent sign has two upper-case hexadecimal digits
/// behind it.
pub proof fn escapes_are_whole(s: Seq<char>)
    ensures
        forall|i: int|
            0 <= i < encoded_segment(s).len() ==> #[trigger] is_escape_at(encoded_segment(s), i),
{
    lemma_escapes(encode_utf8(s));
}

proof fn lemma_escapes(bytes: Seq<u8>)
    ensures
        forall|i: int|
            0 <= i < encoded_bytes(bytes).len() ==> #[trigger] is_escape_at(
                encoded_bytes(bytes),
                i,
            ),
    decreases bytes.len(),
{
    if bytes.len() > 0 {
        let short = bytes.drop_last();
        let before = encoded_bytes(short);
        let last = encoded_byte(bytes.last());
        let e = encoded_bytes(bytes);
        lemma_escapes(short);
        assert forall|i: int| 0 <= i < e.len() implies #[trigger] is_escape_at(e, i) by {
            if i < before.len() {
                assert(is_escape_at(before, i));
                assert(e[i] == before[i]);
            } else {
                assert(e[i] == last[i - before.len()]);
                if last.len() == 3 {
                    assert(e[before.len() as int + 1] == last[1]);
                    assert(e[before.len() as int + 2] == last[2]);
                    assert(last[1] != '%' && last[2] != '%');
                }
            }
        }
    }
}

/// Different texts are encoded differently, so that different accounts have
/// different URLs.
pub proof fn encoding_keeps_texts_apart(a: Seq<char>, b: Seq<char>)
    requires
        encoded_segment(a) == encoded_segment(b),
    ensures
        a == b,
{
    encoded_segments_are_decoded(a);
    encoded_segments_are_decoded(b);
    vstd::utf8::encode_utf8_decode_utf8(a);
    vstd::utf8::encode_utf8_decode_utf8(b);
}

/// A request goes to the operator's host and names the account there and nowhere
/// else: for two accounts at one target the bodies are the same, the delegates
/// among them, and the URLs differ in one path segment.
pub proof fn only_one_segment_depends_on_the_caller(
    endpoint: Seq<char>,
    target: TargetConfig,
    a: Seq<char>,
    b: Seq<char>,
)
    ensures
        token_request(endpoint, target, a).body == token_request(endpoint, target, b).body,
        exists|before: Seq<char>, after: Seq<char>|
            #![trigger before + encoded_segment(a) + after]
            endpoint.is_prefix_of(before) && token_request(endpoint, target, a).url == before
                + encoded_segment(a) + after && token_request(endpoint, target, b).url == before
                + encoded_segment(b) + after,
{
    let before = endpoint + "/v1/projects/-/serviceAccounts/"@;
    let after = match target.token_kind {
        TokenKind::AccessToken => ":generateAccessToken"@,
        TokenKind::IdToken => ":generateIdToken"@,
    };
    assert(token_request(endpoint, target, a).url == before + encoded_segment(a) + after);
    assert(token_request(endpoint, target, b).url == before + encoded_segment(b) + after);
    assert(endpoint.is_prefix_of(before));
}

/// The name of an account on the metadata server cannot change the path of the
/// metadata URL.
pub proof fn metadata_accounts_stay_in_their_segment(sa: Seq<char>)
    requires
        is_metadata_account(sa),
    ensures
        forall|i: int| 0 <= i < sa.len() ==> !breaks_out(#[trigger] sa[i]),
        !has_double_dot(sa),
{
    if is_sa_email(sa) {
        emails_stay_in_their_segment(sa);
    } else {
        assert(all_name_chars(sa));
        assert forall|i: int| 0 <= i < sa.len() implies !breaks_out(#[trigger] sa[i]) by {
            assert(is_name_char(sa[i]));
        }
        if has_double_dot(sa) {
            let i = choose|i: int|
                0 <= i < sa.len() - 1 && #[trigger] sa[i] == '.' && sa[i + 1] == '.';
            assert(is_name_char(sa[i]));
        }
    }
}

// Delegates.

/// A delegate has one resource name, and that is a delegate again: to take the
/// resource name twice changes nothing.
pub proof fn resource_names_are_final(d: Seq<char>)
    ensures
        resource_name(resource_name(d)) == resource_name(d),
        is_delegate(d) ==> is_delegate(resource_name(d)),
{
    let prefix = RESOURCE_PREFIX@;
    if !prefix.is_prefix_of(d) {
        assert(prefix.is_prefix_of(prefix + d));
        assert((prefix + d).skip(prefix.len() as int) =~= d);
    }
}

/// A bare email and the resource name made of it name the same account.
pub proof fn resource_name_of_an_email(email: Seq<char>)
    requires
        is_sa_email(email),
    ensures
        resource_name(email) == RESOURCE_PREFIX@ + email,
{
    reveal_strlit("projects/-/serviceAccounts/");
    emails_stay_in_their_segment(email);
    if RESOURCE_PREFIX@.is_prefix_of(email) {
        assert(email[8] == RESOURCE_PREFIX@[8]);
        assert(RESOURCE_PREFIX@[8] == '/');
        assert(breaks_out(email[8]));
    }
}

// How long a credential lives, and what it holds.

/// A credential does not outlive its token nor the operator's limit; it is as
/// long as both allow, but for a limit of less than a second, which counts as
/// one.
pub proof fn credentials_do_not_outlive_their_limits(token_ttl_secs: u64, max_cache_ttl_ms: u64)
    ensures
        capped_ttl(token_ttl_secs, max_cache_ttl_ms) <= token_ttl_secs,
        max_cache_ttl_ms >= 1000 ==> capped_ttl(token_ttl_secs, max_cache_ttl_ms) * 1000
            <= max_cache_ttl_ms,
        max_cache_ttl_ms < 1000 ==> capped_ttl(token_ttl_secs, max_cache_ttl_ms) <= 1,
        capped_ttl(token_ttl_secs, max_cache_ttl_ms) == token_ttl_secs || (capped_ttl(
            token_ttl_secs,
            max_cache_ttl_ms,
        ) + 1) * 1000 > max_cache_ttl_ms,
        token_ttl_secs > 0 ==> capped_ttl(token_ttl_secs, max_cache_ttl_ms) > 0,
{
}

/// A token that tells when it expires has the time up to then, and a second at
/// least, however late it is.
pub proof fn expiry_is_never_zero(until: i64, now: i64)
    ensures
        seconds_until(until, now) >= 1,
        until - now >= 1 ==> seconds_until(until, now) == until - now,
        until - now < 1 ==> seconds_until(until, now) == 1,
{
}

/// A later clock leaves no more of a token's life.
pub proof fn expiry_comes_nearer(until: i64, now: i64, later: i64)
    requires
        now <= later,
    ensures
        seconds_until(until, later) <= seconds_until(until, now),
{
}

/// The value of a credential and its only part are the token; there is no lease
/// to give back.
pub proof fn credentials_hold_their_token_alone(
    kind: TokenKind,
    target: TargetConfig,
    sa: Seq<char>,
    subject: Option<String>,
    token: Seq<char>,
    ttl_seconds: u64,
    issued_at: Seq<char>,
)
    ensures
        ({
            let issued = credential(kind, target, sa, subject, token, ttl_seconds, issued_at);
            &&& issued.value == Some(token)
            &&& forall|name: Seq<char>| #[trigger]
                issued.parts.dom().contains(name) <==> name == kind_name(kind)
            &&& issued.parts[kind_name(kind)] == token
            &&& issued.lease_id is None
        }),
{
}

// Labels.

proof fn lemma_no_controls(s: Seq<char>)
    ensures
        forall|i: int|
            0 <= i < without_controls(s).len() ==> !is_control_char(
                #[trigger] without_controls(s)[i],
            ),
        (forall|i: int| 0 <= i < s.len() ==> !is_control_char(#[trigger] s[i]))
            ==> without_controls(s) == s,
    decreases s.len(),
{
    reveal(Seq::filter);
    if s.len() > 0 {
        lemma_no_controls(s.drop_last());
        if forall|i: int| 0 <= i < s.len() ==> !is_control_char(#[trigger] s[i]) {
            assert forall|i: int| 0 <= i < s.drop_last().len() implies !is_control_char(
                #[trigger] s.drop_last()[i],
            ) by {
                assert(s.drop_last()[i] == s[i]);
            }
            assert(without_controls(s) =~= s);
        }
    } else {
        assert(without_controls(s) =~= s);
    }
}

/// The label of a subject holds no control character and is bounded in length.
/// To make a label of a label changes nothing.
pub proof fn labels_are_clean(subject: Seq<char>)
    ensures
        subject_label(subject).len() <= MAX_SUBJECT_CHARS,
        forall|i: int|
            0 <= i < subject_label(subject).len() ==> !is_control_char(
                #[trigger] subject_label(subject)[i],
            ),
        subject_label(subject_label(subject)) == subject_label(subject),
{
    lemma_no_controls(subject);
    lemma_no_controls(subject_label(subject));
}

/// A subject without control characters that is short enough is its own label.
pub proof fn clean_subjects_are_kept(subject: Seq<char>)
    requires
        subject.len() <= MAX_SUBJECT_CHARS,
        forall|i: int| 0 <= i < subject.len() ==> !is_control_char(#[trigger] subject[i]),
    ensures
        subject_label(subject) == subject,
{
    lemma_no_controls(subject);
}

// Failures of the API.

/// What a caller is told of a failure depends on the HTTP status and on the
/// error status that the body names, and on nothing else in the body: a message
/// in it cannot come through.
pub proof fn failures_tell_the_status_alone(status: u16, a: String, b: String)
    requires
        !is_success(status),
        error_status(a@) == error_status(b@),
    ensures
        reply(status, Ok(a)) == reply(status, Ok(b)),
{
}

/// The text that a caller is told of a failure, in full.
pub proof fn failure_texts(code: u16, status: Seq<char>)
    ensures
        ({
            let plain = "IAM Credentials returned HTTP "@ + decimal(code as nat);
            let text = if status.len() == 0 {
                plain
            } else {
                plain + " ("@ + status + ")"@
            };
            match gcp_error(code, status) {
                CredentialErrorView::NotAuthorized { reason } => reason == text,
                CredentialErrorView::Throttled { reason } => reason == text,
                CredentialErrorView::Misconfigured { reason } => reason == text,
                CredentialErrorView::Backend { reason } => reason == text,
            }
        }),
{
}

/// Of a token in three parts, the second one tells when it expires.
pub proof fn expiry_is_read_off_the_second_part(
    header: Seq<char>,
    payload: Seq<char>,
    signature: Seq<char>,
)
    requires
        forall|i: int| 0 <= i < header.len() ==> #[trigger] header[i] != '.',
        forall|i: int| 0 <= i < payload.len() ==> #[trigger] payload[i] != '.',
    ensures
        jwt_payload(header + "."@ + payload + "."@ + signature) == Some(payload),
{
    reveal_strlit(".");
    let token = header + "."@ + payload + "."@ + signature;
    let first = header.len() as int;
    assert forall|j: int| 0 <= j < first implies token[j] != '.' by {
        assert(token[j] == header[j]);
    }
    first_index_is_unique(token, '.', first);
    let rest = token.skip(first + 1);
    let second = payload.len() as int;
    assert forall|j: int| 0 <= j < second implies rest[j] != '.' by {
        assert(rest[j] == payload[j]);
    }
    first_index_is_unique(rest, '.', second);
    assert(rest.take(second) =~= payload);
}

// The base token.

/// A request is sent again once at most, and only after the API has refused the
/// base token.
pub proof fn requests_are_sent_twice_at_most(retried: bool, sent: Result<u16, String>)
    ensures
        answer_step(retried, sent) is Retry ==> !retried && sent == Ok::<u16, String>(401),
{
}

/// When a request is sent again, the cached base token plays no part.
pub proof fn a_retry_ignores_the_cache(
    client: GcpClient,
    a: Option<CachedBaseTokenView>,
    b: Option<CachedBaseTokenView>,
    now_ns: u64,
)
    ensures
        bearer_step(client, a, true, now_ns).0 == bearer_step(client, b, true, now_ns).0,
        client.base matches BaseAuth::MetadataServer { endpoint, service_account }
            ==> bearer_step(client, a, true, now_ns).0 == (BearerStepView::Fetch {
            url: metadata_url(endpoint@, service_account@),
        }),
{
}

/// A base token that was forgotten is obtained anew.
pub proof fn a_forgotten_token_is_fetched(
    client: GcpClient,
    force_refresh: bool,
    now_ns: u64,
)
    ensures
        match client.base {
            BaseAuth::MetadataServer { endpoint, service_account } => bearer_step(
                client,
                None,
                force_refresh,
                now_ns,
            ).0 == (BearerStepView::Fetch { url: metadata_url(endpoint@, service_account@) }),
            BaseAuth::StaticAccessToken { access_token } => bearer_step(
                client,
                None,
                force_refresh,
                now_ns,
            ).0 == BearerStepView::Bearer(access_token@),
        },
{
}

/// A token of the metadata server is used out of the cache for as long as more
/// than the refresh buffer is left of its life, and for ever where it does not
/// tell its lifetime; then it is fetched anew.
pub proof fn fetched_tokens_are_cached_until_the_buffer(
    client: GcpClient,
    token: MetadataToken,
    fetched_ns: u64,
    now_ns: u64,
)
    requires
        client.base is MetadataServer,
    ensures
        ({
            let cached = Some(fetched_token(token, fetched_ns));
            let fresh = token.expires_in == 0 || now_ns + client.refresh_buffer_ms
                * NANOS_PER_MILLI < fetched_ns + token.expires_in * NANOS_PER_SECOND;
            let (step, after) = bearer_step(client, cached, false, now_ns);
            &&& fresh ==> step == BearerStepView::Bearer(token.access_token@)
            &&& !fresh ==> step is Fetch
            &&& after == cached
        }),
{
    assert(fetched_ns + token.expires_in * NANOS_PER_SECOND <= u128::MAX) by (nonlinear_arith)
        requires
            fetched_ns <= u64::MAX,
            token.expires_in <= u64::MAX,
            NANOS_PER_SECOND == 1_000_000_000,
    ;
}

/// What a client with a token of the operator's may have in its cache: nothing,
/// or that token, for good.
pub open spec fn holds_the_operators_token(
    client: GcpClient,
    cached: Option<CachedBaseTokenView>,
) -> bool {
    client.base matches BaseAuth::StaticAccessToken { access_token } && (cached is None || cached
        == Some(CachedBaseTokenView { token: access_token@, expires_at_ns: None }))
}

/// With a token of the operator's, that is the base token at every time and on
/// every attempt, and the cache never comes to hold another.
pub proof fn the_operators_token_is_always_used(
    client: GcpClient,
    cached: Option<CachedBaseTokenView>,
    force_refresh: bool,
    now_ns: u64,
)
    requires
        holds_the_operators_token(client, cached),
    ensures
        ({
            let (step, after) = bearer_step(client, cached, force_refresh, now_ns);
            &&& client.base matches BaseAuth::StaticAccessToken { access_token } && step
                == BearerStepView::Bearer(access_token@)
            &&& holds_the_operators_token(client, after)
        }),
{
}

// Configurations.

/// A configuration has one first fault at most, and none where it is valid.
pub proof fn faults_are_unique(
    config: GcpImpersonationConfig,
    e: ConfigErrorView,
    other: ConfigErrorView,
)
    requires
        is_fault(config, e),
        is_fault(config, other),
    ensures
        e == other,
        !is_valid(config),
{
    let targets = config.targets@;
    if base_error(config) is None {
        let a = choose|name: Seq<char>| #[trigger]
            is_first_faulty(targets, name) && target_error(name, targets[name]) == Some(e);
        let b = choose|name: Seq<char>| #[trigger]
            is_first_faulty(targets, name) && target_error(name, targets[name]) == Some(other);
        name_order_is_total(a, b);
        assert(targets.dom().contains(a) && targets.dom().contains(b));
    }
}

/// In a valid configuration an access token has scopes and a lifetime in range,
/// an ID token has an audience and neither of those, and every limit on the
/// lifetime of a credential is between a millisecond and a day.
pub proof fn valid_targets_can_be_asked_for(config: GcpImpersonationConfig, name: Seq<char>)
    requires
        is_valid(config),
        config.targets@.dom().contains(name),
    ensures
        ({
            let target = config.targets@[name];
            &&& target.token_kind == TokenKind::AccessToken ==> {
                &&& target.scopes@.len() > 0
                &&& target.lifetime_seconds matches Some(secs) ==> 1 <= secs <= lifetime_limit(
                    target,
                )
            }
            &&& target.token_kind == TokenKind::IdToken ==> {
                &&& target.audience matches Some(audience) && audience@.len() > 0
                &&& target.scopes@.len() == 0
                &&& target.lifetime_seconds is None
            }
            &&& 1 <= target.max_cache_ttl_ms <= MAX_CACHE_TTL_MS
        }),
{
    assert(target_error(name, config.targets@[name]) is None);
}

/// In a valid configuration all delegates and all accounts on an allowlist are
/// well-formed.
pub proof fn valid_targets_name_well_formed_accounts(
    config: GcpImpersonationConfig,
    name: Seq<char>,
)
    requires
        is_valid(config),
        config.targets@.dom().contains(name),
    ensures
        ({
            let target = config.targets@[name];
            &&& forall|i: int|
                0 <= i < target.delegates@.len() ==> is_delegate((#[trigger] target.delegates@[i])@)
            &&& target.allowed_service_accounts matches Some(allowed) ==> forall|i: int|
                0 <= i < allowed@.len() ==> is_sa_email((#[trigger] allowed@[i])@)
        }),
{
    let target = config.targets@[name];
    assert(target_error(name, target) is None);
    lemma_all_delegates(target.delegates@);
    if let Some(allowed) = target.allowed_service_accounts {
        lemma_all_emails(allowed@);
    }
}

proof fn lemma_all_emails(list: Seq<String>)
    requires
        first_non_email(list) is None,
    ensures
        forall|i: int| 0 <= i < list.len() ==> is_sa_email((#[trigger] list[i])@),
    decreases list.len(),
{
    if list.len() > 0 {
        lemma_all_emails(list.drop_last());
        assert forall|i: int| 0 <= i < list.len() implies is_sa_email((#[trigger] list[i])@) by {
            if i < list.len() - 1 {
                assert(list[i] == list.drop_last()[i]);
            }
        }
    }
}

proof fn lemma_all_delegates(list: Seq<String>)
    requires
        first_non_delegate(list) is None,
    ensures
        forall|i: int| 0 <= i < list.len() ==> is_delegate((#[trigger] list[i])@),
    decreases list.len(),
{
    if list.len() > 0 {
        lemma_all_delegates(list.drop_last());
        assert forall|i: int| 0 <= i < list.len() implies is_delegate((#[trigger] list[i])@) by {
            if i < list.len() - 1 {
                assert(list[i] == list.drop_last()[i]);
            }
        }
    }
}

/// In a valid configuration the API's endpoint is called over TLS or is on this
/// machine, the base token comes from an endpoint that may be called or is not
/// empty, and there is a target.
pub proof fn valid_configurations_can_be_called(config: GcpImpersonationConfig)
    requires
        is_valid(config),
    ensures
        is_api_endpoint(config.iam_credentials_endpoint@),
        match config.base_auth {
            BaseAuth::MetadataServer { endpoint, service_account } => is_endpoint(endpoint@)
                && is_metadata_account(service_account@),
            BaseAuth::StaticAccessToken { access_token } => access_token@.len() > 0,
        },
        config.targets@ != Map::<Seq<char>, TargetConfig>::empty(),
{
}

/// What is used where the operator leaves it out may be called.
pub proof fn defaults_can_be_called(base_auth: BaseAuth)
    requires
        is_default_base_auth(base_auth),
    ensures
        base_auth_error(base_auth) is None,
        is_api_endpoint("https://iamcredentials.googleapis.com"@),
{
    reveal_strlit("https://");
    reveal_strlit("http://");
    reveal_strlit("https://iamcredentials.googleapis.com");
    reveal_strlit("http://metadata.google.internal");
    reveal_strlit("metadata.google.internal");
    reveal_strlit("default");
    let api = "https://iamcredentials.googleapis.com"@;
    assert("https://"@ =~= api.subrange(0, 8));
    let url = "http://metadata.google.internal"@;
    assert("http://"@ =~= url.subrange(0, 7));
    assert(url[4] == ':' && "https://"@[4] == 's');
    let host = url.skip(7);
    assert(host =~= "metadata.google.internal"@);
    url_authority_is_longest(host);
    assert(url_authority(host) =~= host);
    first_index_is_unique(host, '/', host.len() as int);
    first_index_is_unique(host, ':', host.len() as int);
    assert(host_text(host) =~= host);
    assert(!has_user(host));
    assert(all_name_chars("default"@));
}

/// For a URL without an at sign, the host is what stands between the scheme and
/// the first slash or colon, or the end, letter for letter.
pub proof fn endpoints_without_a_user(url: Seq<char>)
    requires
        !url.contains('@'),
    ensures
        is_endpoint(url) <==> {
            ||| "https://"@.is_prefix_of(url) && url.len() > "https://"@.len()
            ||| "http://"@.is_prefix_of(url) && is_plain_http_host(
                host_text(url.skip("http://"@.len() as int)),
            )
        },
        is_api_endpoint(url) <==> {
            ||| "https://"@.is_prefix_of(url) && url.len() > "https://"@.len()
            ||| "http://"@.is_prefix_of(url) && is_this_machine(
                host_text(url.skip("http://"@.len() as int)),
            )
        },
{
    reveal_strlit("https://");
    reveal_strlit("http://");
    let rest = url.skip("http://"@.len() as int);
    if "http://"@.is_prefix_of(url) {
        url_authority_is_longest(rest);
        if has_user(rest) {
            let i = choose|i: int|
                0 <= i < url_authority(rest).len() && url_authority(rest)[i] == '@';
            assert(rest.take(url_authority(rest).len() as int)[i] == url[i + 7]);
            assert(url.contains(url[i + 7]));
        }
        assert("http://"@[4] == url[4]);
        assert("https://"@[4] == 's');
    }
}

/// What may stand before the host of a URL: nothing, or a user and an at sign.
pub open spec fn is_user_part(user: Seq<char>) -> bool {
    &&& user.len() > 0 ==> user.last() == '@'
    &&& forall|i: int| 0 <= i < user.len() ==> !ends_authority(#[trigger] user[i])
}

/// What may stand between the host and the path of a URL: nothing, or a colon
/// and a port. No at sign in it makes a user of what stands before.
pub open spec fn is_port_part(port: Seq<char>) -> bool {
    &&& port.len() > 0 ==> port[0] == ':'
    &&& forall|i: int|
        0 <= i < port.len() ==> #[trigger] port[i] != '@' && !ends_authority(port[i])
}

/// The parts of a URL that is called without TLS: `http://`, perhaps a user, the
/// host, perhaps a port, and then the path, the query or the fragment, if any.
/// Where there is neither user nor port, a slash has to follow the host.
pub open spec fn is_plain_call(
    url: Seq<char>,
    user: Seq<char>,
    host: Seq<char>,
    port: Seq<char>,
    path: Seq<char>,
) -> bool {
    &&& url == "http://"@ + user + host + port + path
    &&& is_user_part(user)
    &&& is_port_part(port)
    &&& path.len() > 0 ==> ends_authority(path[0])
    &&& user.len() == 0 && port.len() == 0 && path.len() > 0 ==> path[0] == '/'
}

proof fn lemma_host_is_plain(host: Seq<char>, i: int)
    requires
        is_plain_http_host(host),
        0 <= i < host.len(),
    ensures
        !ends_authority(host[i]),
        host[i] != ':',
        host[i] != '@',
{
    reveal_strlit("localhost");
    reveal_strlit("127.0.0.1");
    reveal_strlit("metadata.google.internal");
}

proof fn lemma_call_with_user(rest: Seq<char>) -> (parts: (Seq<char>, Seq<char>, Seq<char>))
    requires
        has_user(rest),
    ensures
        rest == parts.0 + host_behind_user(rest) + parts.1 + parts.2,
        parts.0.len() > 0,
        is_user_part(parts.0),
        is_port_part(parts.1),
        parts.2.len() > 0 ==> ends_authority(parts.2[0]),
{
    let authority = url_authority(rest);
    let server = behind_last(authority, '@');
    let host = host_behind_user(rest);
    url_authority_is_longest(rest);
    behind_last_is_longest(authority, '@');
    first_index_is_first(server, ':');
    let user = authority.take(authority.len() - server.len());
    let port = server.skip(host.len() as int);
    let path = rest.skip(authority.len() as int);
    if user.len() == 0 {
        assert(authority =~= server);
    }
    assert forall|i: int| 0 <= i < authority.len() implies !ends_authority(
        #[trigger] authority[i],
    ) by {
        assert(rest.take(authority.len() as int)[i] == rest[i]);
    }
    assert forall|i: int| 0 <= i < user.len() implies !ends_authority(#[trigger] user[i]) by {
        assert(user[i] == authority[i]);
    }
    assert forall|i: int| 0 <= i < port.len() implies #[trigger] port[i] != '@' && !ends_authority(
        port[i],
    ) by {
        assert(port[i] == server[i + host.len()]);
        assert(server.contains(server[i + host.len()]));
        assert(server[i + host.len()] == authority[user.len() + host.len() + i]);
    }
    assert(server =~= host + port);
    assert(authority =~= user + server);
    assert(rest =~= authority + path);
    assert(rest =~= user + host + port + path);
    (user, port, path)
}

proof fn lemma_call_without_user(rest: Seq<char>) -> (parts: (Seq<char>, Seq<char>))
    requires
        !has_user(rest),
        is_plain_http_host(host_text(rest)),
    ensures
        rest == host_text(rest) + parts.0 + parts.1,
        is_port_part(parts.0),
        parts.1.len() > 0 ==> ends_authority(parts.1[0]),
        parts.0.len() == 0 && parts.1.len() > 0 ==> parts.1[0] == '/',
{
    let authority = url_authority(rest);
    let host = host_text(rest);
    url_authority_is_longest(rest);
    first_index_is_first(rest, '/');
    first_index_is_first(rest, ':');
    if authority.len() < host.len() {
        lemma_host_is_plain(host, authority.len() as int);
        assert(host[authority.len() as int] == rest[authority.len() as int]);
    }
    let port = authority.skip(host.len() as int);
    let path = rest.skip(authority.len() as int);
    assert forall|i: int| 0 <= i < port.len() implies #[trigger] port[i] != '@' && !ends_authority(
        port[i],
    ) by {
        assert(port[i] == authority[i + host.len()]);
        assert(rest.take(authority.len() as int)[i + host.len()] == rest[i + host.len()]);
        assert(authority.contains(authority[i + host.len()]));
    }
    assert(port.len() > 0 ==> port[0] == rest[host.len() as int]);
    assert(authority =~= host + port);
    assert(rest =~= authority + path);
    assert(rest =~= host + port + path);
    (port, path)
}

proof fn lemma_plain_call(url: Seq<char>) -> (parts: (Seq<char>, Seq<char>, Seq<char>))
    requires
        is_endpoint(url),
        !"https://"@.is_prefix_of(url),
    ensures
        is_plain_call(
            url,
            parts.0,
            called_host(url.skip("http://"@.len() as int)),
            parts.1,
            parts.2,
        ),
{
    let scheme = "http://"@;
    let rest = url.skip(scheme.len() as int);
    let host = called_host(rest);
    assert(url =~= scheme + rest);
    if has_user(rest) {
        let (user, port, path) = lemma_call_with_user(rest);
        assert(scheme + (user + host + port + path) =~= scheme + user + host + port + path);
        (user, port, path)
    } else {
        let (port, path) = lemma_call_without_user(rest);
        let user = Seq::<char>::empty();
        assert(scheme + (host + port + path) =~= scheme + user + host + port + path);
        (user, port, path)
    }
}

/// An endpoint that is called without TLS is on this machine or the metadata
/// server: that is the host behind the user, if there is one.
pub proof fn plain_endpoints_are_local(url: Seq<char>)
    requires
        is_endpoint(url),
        !"https://"@.is_prefix_of(url),
    ensures
        exists|user: Seq<char>, host: Seq<char>, port: Seq<char>, path: Seq<char>| #[trigger]
            is_plain_call(url, user, host, port, path) && is_plain_http_host(host),
{
    let (user, port, path) = lemma_plain_call(url);
}

/// The IAM Credentials API is called over TLS or on this machine: no other host
/// sees the base token in clear text.
pub proof fn plain_api_endpoints_are_on_this_machine(url: Seq<char>)
    requires
        is_api_endpoint(url),
        !"https://"@.is_prefix_of(url),
    ensures
        exists|user: Seq<char>, host: Seq<char>, port: Seq<char>, path: Seq<char>| #[trigger]
            is_plain_call(url, user, host, port, path) && is_this_machine(host),
{
    let (user, port, path) = lemma_plain_call(url);
}

// Templates.

/// A template in which no placeholder opens stands for itself, whoever calls.
pub proof fn plain_templates_are_kept(template: Seq<char>, identity: PluginIdentity)
    requires
        forall|i: int| 0 <= i < template.len() ==> !opens_placeholder(#[trigger] template.skip(i)),
    ensures
        expand(template, identity) == (Expansion::Text { text: template }),
    decreases template.len(),
{
    if template.len() > 0 {
        assert(template.skip(0) =~= template);
        let rest = template.skip(1);
        assert forall|i: int| 0 <= i < rest.len() implies !opens_placeholder(
            #[trigger] rest.skip(i),
        ) by {
            assert(rest.skip(i) =~= template.skip(i + 1));
        }
        plain_templates_are_kept(rest, identity);
        assert(template.take(1) + rest =~= template);
    } else {
        assert(template =~= Seq::<char>::empty());
    }
}

/// What stands before the first dollar sign of a template is kept.
pub proof fn text_before_a_placeholder_is_kept(
    before: Seq<char>,
    template: Seq<char>,
    identity: PluginIdentity,
)
    requires
        forall|i: int| 0 <= i < before.len() ==> #[trigger] before[i] != '$',
    ensures
        expand(before + template, identity) == with_prefix(before, expand(template, identity)),
    decreases before.len(),
{
    let whole = before + template;
    if before.len() > 0 {
        let rest = before.skip(1);
        assert(whole[0] == before[0]);
        assert forall|i: int| 0 <= i < rest.len() implies #[trigger] rest[i] != '$' by {
            assert(rest[i] == before[i + 1]);
        }
        text_before_a_placeholder_is_kept(rest, template, identity);
        assert(whole.skip(1) =~= rest + template);
        assert(whole.take(1) =~= before.take(1));
        assert(before.take(1) + rest =~= before);
        match expand(template, identity) {
            Expansion::Text { text } => {
                assert(before.take(1) + (rest + text) =~= before + text);
            },
            Expansion::Failed { .. } => {},
        }
    } else {
        assert(whole =~= template);
        match expand(template, identity) {
            Expansion::Text { text } => {
                assert(before + text =~= text);
            },
            Expansion::Failed { .. } => {},
        }
    }
}

/// What a placeholder stands for, before `after`.
pub open spec fn replaced(
    field: Seq<char>,
    after: Seq<char>,
    identity: PluginIdentity,
) -> Expansion {
    match field_value(field, identity) {
        Some(value) if value.len() > 0 => with_prefix(value, expand(after, identity)),
        _ => Expansion::Failed { field },
    }
}

/// A placeholder is replaced by the field that it names, and what was put in is
/// not looked at again. Where the caller has no such field, or an empty one, the
/// template fails with its name.
pub proof fn placeholders_are_replaced(
    field: Seq<char>,
    after: Seq<char>,
    identity: PluginIdentity,
)
    requires
        forall|i: int| 0 <= i < field.len() ==> #[trigger] field[i] != '}',
    ensures
        expand("${identity."@ + field + "}"@ + after, identity) == replaced(field, after, identity),
{
    reveal_strlit("${identity.");
    reveal_strlit("identity.");
    reveal_strlit("}");
    let long = "identity."@ + field;
    assert forall|i: int| 0 <= i < long.len() implies #[trigger] long[i] != '}' by {
        if i >= 9 {
            assert(long[i] == field[i - 9]);
        }
    }
    assert("identity."@ =~= long.subrange(0, 9));
    assert(long.skip(9) =~= field);
    assert("${identity."@ + field + "}"@ + after =~= seq!['$', '{'] + long + seq!['}'] + after);
    lemma_placeholder("${identity."@ + field + "}"@ + after, long, after, identity);
}

/// `identity.` may be left out of a placeholder.
pub proof fn short_placeholders_are_replaced(
    field: Seq<char>,
    after: Seq<char>,
    identity: PluginIdentity,
)
    requires
        forall|i: int| 0 <= i < field.len() ==> #[trigger] field[i] != '}',
        !"identity."@.is_prefix_of(field),
    ensures
        expand("${"@ + field + "}"@ + after, identity) == replaced(field, after, identity),
{
    reveal_strlit("${");
    reveal_strlit("}");
    assert("${"@ + field + "}"@ + after =~= seq!['$', '{'] + field + seq!['}'] + after);
    lemma_placeholder("${"@ + field + "}"@ + after, field, after, identity);
}

proof fn lemma_placeholder(
    template: Seq<char>,
    placeholder: Seq<char>,
    after: Seq<char>,
    identity: PluginIdentity,
)
    requires
        template == seq!['$', '{'] + placeholder + seq!['}'] + after,
        forall|i: int| 0 <= i < placeholder.len() ==> #[trigger] placeholder[i] != '}',
    ensures
        expand(template, identity) == replaced(placeholder_field(placeholder), after, identity),
{
    let rest = template.skip(2);
    let end = placeholder.len() as int;
    assert forall|j: int| 0 <= j < end implies rest[j] != '}' by {
        assert(rest[j] == placeholder[j]);
    }
    first_index_is_unique(rest, '}', end);
    assert(rest.take(end) =~= placeholder);
    assert(rest.skip(end + 1) =~= after);
}

/// Whether the expansion of a template comes to a placeholder that does not end
/// in it.
pub open spec fn ends_inside_a_placeholder(template: Seq<char>, identity: PluginIdentity) -> bool
    decreases template.len(),
{
    if template.len() == 0 {
        false
    } else if opens_placeholder(template) {
        let rest = template.skip(2);
        let end = first_index(rest, '}') as int;
        if end >= rest.len() {
            true
        } else {
            match field_value(placeholder_field(rest.take(end)), identity) {
                Some(value) if value.len() > 0 => ends_inside_a_placeholder(
                    rest.skip(end + 1),
                    identity,
                ),
                _ => false,
            }
        }
    } else {
        ends_inside_a_placeholder(template.skip(1), identity)
    }
}

/// Whether a placeholder opens where two templates meet.
pub open spec fn opens_at_the_seam(a: Seq<char>, b: Seq<char>) -> bool {
    a.len() > 0 && a.last() == '$' && b.len() > 0 && b[0] == '{'
}

/// An expansion, followed by another: a failure of the first is that of both.
pub open spec fn followed_by(a: Expansion, b: Expansion) -> Expansion {
    match a {
        Expansion::Text { text } => with_prefix(text, b),
        Expansion::Failed { field } => Expansion::Failed { field },
    }
}

/// A template in two parts is expanded part by part, unless a placeholder spans
/// both: one that the first part leaves open, or one that opens where they meet.
pub proof fn templates_expand_part_by_part(a: Seq<char>, b: Seq<char>, identity: PluginIdentity)
    requires
        b.len() > 0 ==> !ends_inside_a_placeholder(a, identity),
        expand(a, identity) is Text ==> !opens_at_the_seam(a, b),
    ensures
        expand(a + b, identity) == followed_by(expand(a, identity), expand(b, identity)),
    decreases a.len(),
{
    let whole = a + b;
    if a.len() == 0 {
        assert(whole =~= b);
        lemma_with_empty_prefix(expand(b, identity));
    } else if b.len() == 0 {
        assert(whole =~= a);
        assert(expand(b, identity) == (Expansion::Text { text: Seq::<char>::empty() }));
        match expand(a, identity) {
            Expansion::Text { text } => {
                assert(text + Seq::<char>::empty() =~= text);
            },
            Expansion::Failed { .. } => {},
        }
    } else if opens_placeholder(a) {
        let rest = a.skip(2);
        let end = first_index(rest, '}') as int;
        let field = placeholder_field(rest.take(end));
        let tail = rest.skip(end + 1);
        first_index_is_first(rest, '}');
        assert(opens_placeholder(whole));
        assert(whole.skip(2) =~= rest + b);
        first_index_is_unique(rest + b, '}', end);
        assert((rest + b).take(end) =~= rest.take(end));
        assert((rest + b).skip(end + 1) =~= tail + b);
        match field_value(field, identity) {
            Some(value) if value.len() > 0 => {
                assert(tail.len() > 0 ==> tail.last() == a.last());
                templates_expand_part_by_part(tail, b, identity);
                lemma_prefix_first(value, expand(tail, identity), expand(b, identity));
            },
            _ => {},
        }
    } else {
        let tail = a.skip(1);
        assert(tail.len() > 0 ==> tail.last() == a.last());
        assert(whole[0] == a[0]);
        if a.len() > 1 {
            assert(whole[1] == a[1]);
        } else {
            assert(tail =~= Seq::<char>::empty());
            assert(whole[1] == b[0]);
        }
        assert(whole.skip(1) =~= tail + b);
        assert(whole.take(1) =~= a.take(1));
        templates_expand_part_by_part(tail, b, identity);
        lemma_prefix_first(a.take(1), expand(tail, identity), expand(b, identity));
    }
}

proof fn lemma_with_empty_prefix(e: Expansion)
    ensures
        with_prefix(Seq::empty(), e) == e,
{
    match e {
        Expansion::Text { text } => {
            assert(Seq::<char>::empty() + text =~= text);
        },
        Expansion::Failed { .. } => {},
    }
}

proof fn lemma_prefix_first(prefix: Seq<char>, a: Expansion, b: Expansion)
    ensures
        with_prefix(prefix, followed_by(a, b)) == followed_by(with_prefix(prefix, a), b),
{
    match (a, b) {
        (Expansion::Text { text }, Expansion::Text { text: after }) => {
            assert(prefix + (text + after) =~= (prefix + text) + after);
        },
        _ => {},
    }
}

// Positions in lists.

proof fn lemma_decimal_digits(n: nat)
    ensures
        decimal(n).len() > 0,
        forall|i: int| 0 <= i < decimal(n).len() ==> is_digit(#[trigger] decimal(n)[i]),
        digits_value(decimal(n)) == n,
    decreases n,
{
    if n < 10 {
        assert(decimal(n).drop_last() =~= Seq::<char>::empty());
        reveal_with_fuel(digits_value, 2);
    } else {
        lemma_decimal_digits(n / 10);
        assert(decimal(n).drop_last() =~= decimal(n / 10));
    }
}

/// A number written in decimal is read back as that number.
pub proof fn decimals_are_read_back(n: usize)
    ensures
        index_value(decimal(n as nat)) == Some(n),
{
    lemma_decimal_digits(n as nat);
    assert(is_digit(decimal(n as nat)[0]));
}

/// `name[position]` is read as that position.
pub proof fn positions_are_read_back(name: Seq<char>, position: usize)
    ensures
        indexed(name + "["@ + decimal(position as nat) + "]"@, name) == Some(position),
{
    reveal_strlit("[");
    reveal_strlit("]");
    decimals_are_read_back(position);
    let digits = decimal(position as nat);
    let field = name + "["@ + digits + "]"@;
    let prefix = name.push('[');
    assert(prefix.is_prefix_of(field)) by {
        assert(prefix =~= field.subrange(0, prefix.len() as int));
    }
    assert(field.skip(prefix.len() as int) =~= digits.push(']'));
    assert(digits.push(']').drop_last() =~= digits);
}

} // verus!
