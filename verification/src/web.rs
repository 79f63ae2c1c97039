//! URL parsing and HTTP header syntax, delegated to the `url` and `reqwest`
//! crates.
use crate::domain;
use vstd::prelude::*;

verus! {

/// What `url::Url::parse` makes of a text: on success the scheme, the host
/// (as `Url::host_str` gives it) and the serialised URL; on failure the
/// message of the parse error.
pub uninterp spec fn parsed_url(input: Seq<char>) -> Result<
    (Seq<char>, Option<Seq<char>>, Seq<char>),
    Seq<char>,
>;

/// The parts of a parsed URL that the library reads.
pub struct ParsedUrl {
    pub scheme: String,
    pub host: Option<String>,
    pub serialization: String,
}

/// Calls `url::Url::parse` on `input`.
///
/// The contract only ties the outcome to `parsed_url`; nothing is claimed
/// about which texts parse.
#[verifier::external_body]
pub fn parse_url(input: &str) -> (r: Result<ParsedUrl, String>)
    ensures
        match r {
            Ok(u) => parsed_url(input@) == Ok::<_, Seq<char>>(
                (u.scheme@, domain::opt_view(u.host), u.serialization@),
            ),
            Err(message) => parsed_url(input@) == Err::<(Seq<char>, Option<Seq<char>>, Seq<char>), _>(
                message@,
            ),
        },
{
    match url::Url::parse(input) {
        Ok(url) => Ok(ParsedUrl {
            scheme: url.scheme().to_owned(),
            host: url.host_str().map(str::to_owned),
            serialization: url.as_str().to_owned(),
        }),
        Err(error) => Err(error.to_string()),
    }
}

/// A byte allowed in an HTTP header name (an RFC 7230 `tchar`; upper-case
/// letters are accepted and folded).
pub open spec fn is_token_byte(b: u8) -> bool {
    ||| b == 33
    ||| 35 <= b <= 39
    ||| b == 42
    ||| b == 43
    ||| b == 45
    ||| b == 46
    ||| 48 <= b <= 57
    ||| 65 <= b <= 90
    ||| 94 <= b <= 122
    ||| b == 124
    ||| b == 126
}

/// The bytes `http::HeaderName::from_bytes` accepts.
pub open spec fn valid_header_name(bytes: Seq<u8>) -> bool {
    &&& 1 <= bytes.len() <= 65535
    &&& forall|i: int| 0 <= i < bytes.len() ==> is_token_byte(#[trigger] bytes[i])
}

/// A byte allowed in an HTTP header value.
pub open spec fn is_value_byte(b: u8) -> bool {
    (b >= 32 && b != 127) || b == 9
}

/// The bytes `http::HeaderValue::from_str` accepts.
pub open spec fn valid_header_value(bytes: Seq<u8>) -> bool {
    forall|i: int| 0 <= i < bytes.len() ==> is_value_byte(#[trigger] bytes[i])
}

/// Calls `reqwest::header::HeaderName::from_bytes` on the UTF-8 bytes of
/// `name`. It accepts between 1 and 65535 token bytes, as the `http` crate's
/// `HEADER_CHARS` table and `parse_hdr` decide; its error displays as
/// "invalid HTTP header name".
#[verifier::external_body]
pub fn header_name_check(name: &str) -> (r: Result<(), String>)
    ensures
        r is Ok == valid_header_name(vstd::utf8::encode_utf8(name@)),
        r matches Err(m) ==> m@ == "invalid HTTP header name"@,
{
    match reqwest::header::HeaderName::from_bytes(name.as_bytes()) {
        Ok(_) => Ok(()),
        Err(error) => Err(error.to_string()),
    }
}

/// Calls `reqwest::header::HeaderValue::from_bytes` on the UTF-8 bytes of
/// `value`. It accepts them when every byte is a tab or in `32..=255` other
/// than 127, as the `http` crate's `is_valid` decides; its error displays as
/// "failed to parse header value".
#[verifier::external_body]
pub fn header_value_check(value: &str) -> (r: Result<(), String>)
    ensures
        r is Ok == valid_header_value(vstd::utf8::encode_utf8(value@)),
        r matches Err(m) ==> m@ == "failed to parse header value"@,
{
    match reqwest::header::HeaderValue::from_bytes(value.as_bytes()) {
        Ok(_) => Ok(()),
        Err(error) => Err(error.to_string()),
    }
}

} // verus!
