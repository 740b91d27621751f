//! The library's bindings to outside code.
//!
//! Each function here wraps one outside computation and states what it
//! returns; nothing else in the crate calls outside code. Results that
//! would take pages to state (a base64 text, a formatted date) are
//! given names instead, and the contracts speak of those names.
use vstd::prelude::*;

use base64::Engine;
use chrono::TimeZone;

verus! {

/// The URL-safe unpadded base64 text of a byte string. The encoding
/// depends on the bytes alone.
pub uninterp spec fn b64url_encode_of(b: Seq<u8>) -> Seq<char>;

/// The byte string a URL-safe unpadded base64 text denotes, or
/// nothing when the text is not such an encoding. Depends on the text
/// alone.
pub uninterp spec fn b64url_decode_of(s: Seq<char>) -> Option<Seq<u8>>;

/// Relies on base64's URL_SAFE_NO_PAD engine: the encoding of a byte
/// string, empty exactly for the empty string.
#[verifier::external_body]
pub fn b64url_encode(b: &Vec<u8>) -> (r: String)
    ensures
        r@ == b64url_encode_of(b@),
        b@.len() == 0 <==> r@.len() == 0,
{
    base64::prelude::BASE64_URL_SAFE_NO_PAD.encode(b)
}

/// Relies on base64's URL_SAFE_NO_PAD engine: the bytes a base64 text
/// denotes, or nothing when it is not valid base64.
#[verifier::external_body]
pub fn b64url_decode(s: &String) -> (r: Option<Vec<u8>>)
    ensures
        (r matches Some(b) ==> b64url_decode_of(s@) == Some(b@)),
        r is None <==> b64url_decode_of(s@) is None,
{
    base64::prelude::BASE64_URL_SAFE_NO_PAD.decode(s.as_str()).ok()
}

/// The RFC 3339 text of an epoch second in the UTC zone, or nothing
/// for seconds outside the representable range. Depends on the second
/// alone.
pub uninterp spec fn rfc3339_of_timestamp(secs: i64) -> Option<Seq<char>>;

/// The epoch second an RFC 3339 text denotes, or nothing when the
/// text is not such a date. Depends on the text alone.
pub uninterp spec fn timestamp_of_rfc3339(s: Seq<char>) -> Option<i64>;

/// Relies on chrono: the RFC 3339 rendering of an epoch second, in
/// the UTC zone.
#[verifier::external_body]
pub fn timestamp_to_rfc3339(secs: i64) -> (r: Option<String>)
    ensures
        (r matches Some(s) ==> rfc3339_of_timestamp(secs) == Some(s@)),
        r is None <==> rfc3339_of_timestamp(secs) is None,
{
    match chrono::Utc.timestamp_opt(secs, 0) {
        chrono::LocalResult::Single(dt) => Some(dt.to_rfc3339()),
        _ => None,
    }
}

/// Relies on chrono: the epoch second an RFC 3339 text denotes.
#[verifier::external_body]
pub fn rfc3339_to_timestamp(s: &String) -> (r: Option<i64>)
    ensures
        (r matches Some(t) ==> timestamp_of_rfc3339(s@) == Some(t)),
        r is None <==> timestamp_of_rfc3339(s@) is None,
{
    chrono::DateTime::parse_from_rfc3339(s.as_str()).ok().map(|d| d.timestamp())
}

/// Relies on rand: a fresh sequence number for a message the daemon
/// originates. Nothing is promised of the drawn value.
#[verifier::external_body]
pub fn random_oseq() -> u32 {
    rand::random()
}

/// Relies on String::from_utf8 of std, which vstd leaves unspecified:
/// the string carrying exactly the given bytes when they are valid
/// UTF-8, nothing otherwise.
#[verifier::external_body]
pub fn bytes_to_string(b: Vec<u8>) -> (r: Option<String>)
    ensures
        (r matches Some(s) ==> vstd::utf8::encode_utf8(s@) == b@),
        r is Some <==> vstd::utf8::valid_utf8(b@),
{
    String::from_utf8(b).ok()
}

} // verus!
