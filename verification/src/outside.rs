//! The calls into other crates, each behind a contract that is taken on trust.

use crate::text::{is_digit, opt_text};
use base64::Engine;
use vstd::prelude::*;

verus! {

/// The Unix time, in whole seconds, that a text in RFC 3339 form denotes, or
/// the text that says why it denotes none.
pub uninterp spec fn rfc3339_timestamp(text: Seq<char>) -> Result<i64, Seq<char>>;

/// Calls `chrono::DateTime::parse_from_rfc3339`. What is taken on trust is that
/// the outcome depends on the text alone: the time as `timestamp` gives it in
/// seconds, or the error as it prints itself.
#[verifier::external_body]
pub(crate) fn parse_rfc3339(text: &str) -> (r: Result<i64, String>)
    ensures
        rfc3339_timestamp(text@) == match r {
            Ok(seconds) => Ok::<i64, Seq<char>>(seconds),
            Err(e) => Err::<i64, Seq<char>>(e@),
        },
{
    match chrono::DateTime::parse_from_rfc3339(text) {
        Ok(time) => Ok(time.timestamp()),
        Err(e) => Err(e.to_string()),
    }
}

/// Calls `chrono::Utc::now` and hands on the Unix time in whole seconds. What is
/// taken on trust is that it is not before the start of 1970: `now` does not
/// return where std's clock stands before. Which time it is, is not stated: it
/// is the machine's clock.
#[verifier::external_body]
pub(crate) fn unix_now() -> (r: i64)
    ensures
        r >= 0,
{
    chrono::Utc::now().timestamp()
}

/// Whether a text has the form of a time in UTC to the second: the year, then
/// `-MM-DDThh:mm:ssZ`. The year has four digits, or a plus sign and more.
pub open spec fn is_utc_time(text: Seq<char>) -> bool {
    let end = text.len() - 1;
    let year = end - 15;
    &&& year == 4 || (year >= 6 && text[0] == '+')
    &&& forall|i: int| 0 <= i < year && (year == 4 || i > 0) ==> is_digit(#[trigger] text[i])
    &&& text[year] == '-' && text[year + 3] == '-'
    &&& text[year + 6] == 'T'
    &&& text[year + 9] == ':' && text[year + 12] == ':'
    &&& text[end] == 'Z'
    &&& forall|i: int|
        year < i < end && (i - year) % 3 != 0 ==> is_digit(#[trigger] text[i])
}

/// Calls `chrono::Utc::now` and hands on the time as `to_rfc3339_opts` prints
/// it, to the second and with `Z` for the offset. What is taken on trust is the
/// form of the text. Which time it is, is not stated: it is the machine's clock,
/// which has to stand after the start of 1970.
#[verifier::external_body]
pub(crate) fn rfc3339_now() -> (r: String)
    ensures
        is_utc_time(r@),
{
    chrono::Utc::now().to_rfc3339_opts(chrono::SecondsFormat::Secs, true)
}

/// The bytes that a text encodes in base64 with the URL-safe alphabet and
/// without padding, if it encodes any.
pub uninterp spec fn base64url_bytes(text: Seq<char>) -> Option<Seq<u8>>;

/// The bytes of an optional vector.
pub open spec fn opt_bytes(o: Option<Vec<u8>>) -> Option<Seq<u8>> {
    match o {
        Some(bytes) => Some(bytes@),
        None => None,
    }
}

/// Calls `decode` of base64's `URL_SAFE_NO_PAD` engine. What is taken on trust
/// is that the outcome depends on the text alone; every error is `None`.
#[verifier::external_body]
pub(crate) fn decode_base64url(text: &str) -> (r: Option<Vec<u8>>)
    ensures
        opt_bytes(r) == base64url_bytes(text@),
{
    base64::engine::general_purpose::URL_SAFE_NO_PAD.decode(text).ok()
}

/// The integer under `key` in the JSON object that `bytes` hold: `None` where
/// they cannot be read as a JSON object, or where there is no such key or no
/// integer in the range of `i64` under it.
pub uninterp spec fn json_integer(bytes: Seq<u8>, key: Seq<char>) -> Option<i64>;

/// Calls `serde_json::from_slice` for a `Value`, then `Value::get` and
/// `Value::as_i64`. What is taken on trust is that the outcome depends on the
/// bytes and the key alone.
#[verifier::external_body]
pub(crate) fn read_json_integer(bytes: &Vec<u8>, key: &str) -> (r: Option<i64>)
    ensures
        r == json_integer(bytes@, key@),
{
    let value = serde_json::from_slice::<serde_json::Value>(bytes).ok()?;
    value.get(key).and_then(serde_json::Value::as_i64)
}

/// The string under `inner` in the JSON object under `outer` in the JSON object
/// that `text` holds: `None` where one of them is not there or cannot be read.
pub uninterp spec fn json_inner_text(
    text: Seq<char>,
    outer: Seq<char>,
    inner: Seq<char>,
) -> Option<Seq<char>>;

/// Calls `serde_json::from_str` for a `Value`, then `Value::get` twice and
/// `Value::as_str`. What is taken on trust is that the outcome depends on the
/// text and the two keys alone.
#[verifier::external_body]
pub(crate) fn read_json_inner_text(text: &str, outer: &str, inner: &str) -> (r: Option<String>)
    ensures
        opt_text(r) == json_inner_text(text@, outer@, inner@),
{
    let value = serde_json::from_str::<serde_json::Value>(text).ok()?;
    value.get(outer)?.get(inner)?.as_str().map(str::to_owned)
}

} // verus!
