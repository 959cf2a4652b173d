//! Text that crosses the wire: decoding header bytes, the cookie grammar,
//! header values and URIs. The grammar and the encodings are those of the
//! `cookie` and `http` crates; the contracts below say what this library
//! relies on from them.
use vstd::prelude::*;
use vstd::utf8::{decode_utf8, valid_utf8};
use crate::jar::{CookieView, StoredCookie};

verus! {

#[verifier::external_type_specification]
#[verifier::external_body]
pub struct ExParseError(cookie::ParseError);

#[verifier::external_type_specification]
#[verifier::external_body]
pub struct ExHeaderValue(http::HeaderValue);

#[verifier::external_type_specification]
#[verifier::external_body]
pub struct ExInvalidHeaderValue(http::header::InvalidHeaderValue);

#[verifier::external_type_specification]
#[verifier::external_body]
pub struct ExUri(http::Uri);

#[verifier::external_type_specification]
#[verifier::external_body]
pub struct ExInvalidUri(http::uri::InvalidUri);

/// The cookie that the `cookie` crate's grammar reads from a `Set-Cookie`
/// value, or `None` where the value is not a cookie.
pub uninterp spec fn parsed_cookie(s: Seq<char>) -> Option<CookieView>;

/// Whether the `http` crate accepts `s` as a URI.
pub uninterp spec fn uri_accepts(s: Seq<char>) -> bool;

/// A character that may stand in a header value: visible ASCII, a space, a
/// tab, or any character outside ASCII (whose UTF-8 bytes are all >= 0x80).
pub open spec fn header_char_ok(c: char) -> bool {
    c == '\t' || (c as u32 >= 32 && c as u32 != 127)
}

pub open spec fn header_text_ok(s: Seq<char>) -> bool {
    forall|i: int| 0 <= i < s.len() ==> header_char_ok(#[trigger] s[i])
}

/// Relies on std::str::from_utf8: it accepts exactly the valid UTF-8 byte
/// strings and keeps their characters.
#[verifier::external_body]
pub(crate) fn decode_text(b: &[u8]) -> (r: Option<String>)
    ensures
        r is Some <==> valid_utf8(b@),
        r matches Some(s) ==> s@ == decode_utf8(b@),
{
    std::str::from_utf8(b).ok().map(|s| s.to_string())
}

/// Relies on cookie::Cookie::parse for the grammar of one `Set-Cookie`
/// value, and on Cookie::name, value, domain and path to read the result.
#[verifier::external_body]
pub(crate) fn parse_cookie(s: &str) -> (r: Result<StoredCookie, cookie::ParseError>)
    ensures
        match r {
            Ok(c) => parsed_cookie(s@) == Some(c@),
            Err(_) => parsed_cookie(s@) is None,
        },
{
    match cookie::Cookie::parse(s) {
        Ok(c) => Ok(StoredCookie {
            name: c.name().to_string(),
            value: c.value().to_string(),
            domain: c.domain().map(|d| d.to_string()),
            path: c.path().map(|p| p.to_string()),
        }),
        Err(e) => Err(e),
    }
}

/// Relies on http::HeaderValue::from_str: it accepts a string exactly when
/// every byte is a tab or at least 32 and not 127, and then holds a copy of
/// the string's bytes, which HeaderValue::as_bytes hands back.
#[verifier::external_body]
pub(crate) fn header_value(s: &str) -> (r: Result<(http::HeaderValue, Vec<u8>), http::header::InvalidHeaderValue>)
    ensures
        r is Ok <==> header_text_ok(s@),
        r matches Ok((_, b)) ==> valid_utf8(b@) && decode_utf8(b@) == s@,
{
    match http::HeaderValue::from_str(s) {
        Ok(v) => {
            let bytes = v.as_bytes().to_vec();
            Ok((v, bytes))
        },
        Err(e) => Err(e),
    }
}

/// Relies on http::Uri::from_str to accept or refuse `s` as a URI; an empty
/// string is refused.
#[verifier::external_body]
pub(crate) fn parse_uri(s: &str) -> (r: Result<http::Uri, http::uri::InvalidUri>)
    ensures
        r is Ok <==> uri_accepts(s@),
        s@.len() == 0 ==> r is Err,
{
    s.parse::<http::Uri>()
}

} // verus!
