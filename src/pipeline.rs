//! The decisions of one request's pipeline, on each side of the transport
//! call: the `Cookie` header that goes out, and the `Set-Cookie` headers that
//! come back and are merged into the jar.
use vstd::prelude::*;
use vstd::utf8::{decode_utf8, valid_utf8};
use crate::jar::{header_text, lemma_header_empty_iff, inserted_all, CookieJar, CookieView, StoredCookie};
use crate::wire::{
    decode_text, header_text_ok, header_value, parse_cookie, parse_uri, parsed_cookie,
    uri_accepts,
};

verus! {

/// What can go wrong in this layer; transport errors pass through untouched
/// and are not among them.
#[derive(Debug, Clone, Copy, PartialEq, Eq, Structural)]
pub enum ClientError {
    /// A request's URI could not be read.
    InvalidUri,
    /// A `Set-Cookie` header is not text, or not a cookie.
    CookieParse,
    /// The outgoing `Cookie` header holds a character a header may not hold.
    HeaderEncoding,
}

/// The cookie that one `Set-Cookie` header carries: its bytes decoded as
/// UTF-8, then read by the cookie grammar.
pub open spec fn set_cookie_of(b: Seq<u8>) -> Option<CookieView> {
    if valid_utf8(b) {
        parsed_cookie(decode_utf8(b))
    } else {
        None
    }
}

pub open spec fn all_parse(hs: Seq<Vec<u8>>) -> bool {
    forall|i: int| 0 <= i < hs.len() ==> (#[trigger] set_cookie_of(hs[i]@)) is Some
}

/// The cookies that the headers `hs` carry, in order.
pub open spec fn cookies_of(hs: Seq<Vec<u8>>) -> Seq<CookieView> {
    hs.map_values(|h: Vec<u8>| set_cookie_of(h@)->Some_0)
}

pub open spec fn views(v: Seq<StoredCookie>) -> Seq<CookieView> {
    v.map_values(|c: StoredCookie| c@)
}

/// Reads `uri` as the URI of a new request.
pub fn request_uri(uri: &str) -> (r: Result<http::Uri, ClientError>)
    ensures
        r is Ok <==> uri_accepts(uri@),
        r is Err ==> r == Err::<http::Uri, ClientError>(ClientError::InvalidUri),
{
    match parse_uri(uri) {
        Ok(u) => Ok(u),
        Err(_) => Err(ClientError::InvalidUri),
    }
}

/// The outgoing `Cookie` header for the jar text `text`, with its bytes:
/// none where the cookie store is off or the jar is empty, an error where
/// the text cannot be a header value.
pub fn cookie_header_value(text: Option<String>) -> (r: Result<Option<(http::HeaderValue, Vec<u8>)>, ClientError>)
    ensures
        (text is None || text->Some_0@.len() == 0) ==> r matches Ok(None),
        text matches Some(t) ==> (t@.len() > 0 ==> (r matches Ok(Some(_)) <==> header_text_ok(t@))),
        text matches Some(t) ==> (t@.len() > 0 ==> (!header_text_ok(t@) <==> r == Err::<Option<(http::HeaderValue, Vec<u8>)>, ClientError>(ClientError::HeaderEncoding))),
        text matches Some(t) ==> (r matches Ok(Some((_, b))) ==> valid_utf8(b@) && decode_utf8(b@) == t@),
{
    match text {
        None => Ok(None),
        Some(t) => {
            if t.as_str().is_empty() {
                return Ok(None);
            }
            match header_value(t.as_str()) {
                Ok(v) => Ok(Some(v)),
                Err(_) => Err(ClientError::HeaderEncoding),
            }
        },
    }
}

/// Reads every `Set-Cookie` header of a response; fails as a whole where one
/// of them is not text or not a cookie.
pub fn decode_set_cookies(headers: &Vec<Vec<u8>>) -> (r: Result<Vec<StoredCookie>, ClientError>)
    ensures
        r is Ok <==> all_parse(headers@),
        r matches Ok(v) ==> views(v@) == cookies_of(headers@),
        r is Err ==> r == Err::<Vec<StoredCookie>, ClientError>(ClientError::CookieParse),
{
    let mut out: Vec<StoredCookie> = Vec::new();
    let mut i: usize = 0;
    while i < headers.len()
        invariant
            i <= headers@.len(),
            forall|j: int| 0 <= j < i ==> (#[trigger] set_cookie_of(headers@[j]@)) is Some,
            views(out@) == cookies_of(headers@.subrange(0, i as int)),
        decreases headers.len() - i,
    {
        let text = decode_text(headers[i].as_slice());
        match text {
            None => {
                assert(set_cookie_of(headers@[i as int]@) is None);
                return Err(ClientError::CookieParse);
            },
            Some(t) => match parse_cookie(t.as_str()) {
                Ok(c) => {
                    proof {
                        assert(views(out@.push(c)) =~= views(out@).push(c@));
                        assert(cookies_of(headers@.subrange(0, i + 1)) =~= cookies_of(
                            headers@.subrange(0, i as int),
                        ).push(set_cookie_of(headers@[i as int]@)->Some_0));
                    }
                    out.push(c);
                },
                Err(_) => {
                    assert(set_cookie_of(headers@[i as int]@) is None);
                    return Err(ClientError::CookieParse);
                },
            },
        }
        i = i + 1;
    }
    assert(headers@.subrange(0, i as int) =~= headers@);
    Ok(out)
}


/// The `Cookie` header that a request takes on its way out: none where the
/// cookie store is off, else every cookie of the jar as `name=value`,
/// joined by `;`.
pub fn outgoing_cookie_header(jar: &CookieJar, cookie_store: bool) -> (r: Result<Option<(http::HeaderValue, Vec<u8>)>, ClientError>)
    ensures
        !cookie_store || jar@.len() == 0 ==> r matches Ok(None),
        cookie_store && jar@.len() > 0 ==> (r matches Ok(Some(_)) <==> header_text_ok(header_text(jar@))),
        cookie_store && jar@.len() > 0 ==> (!header_text_ok(header_text(jar@)) <==> r == Err::<Option<(http::HeaderValue, Vec<u8>)>, ClientError>(ClientError::HeaderEncoding)),
        r matches Ok(Some((_, b))) ==> valid_utf8(b@) && decode_utf8(b@) == header_text(jar@),
{
    proof {
        lemma_header_empty_iff(jar@);
    }
    let text = if cookie_store {
        Some(jar.cookie_header())
    } else {
        None
    };
    cookie_header_value(text)
}

/// Merges the `Set-Cookie` headers of a response into the jar. With the
/// cookie store off nothing is read and the jar stays as it is. Otherwise
/// either every header is a cookie and all of them are inserted in order,
/// or the merge fails and the jar stays as it is.
pub fn merge_set_cookies(jar: &mut CookieJar, cookie_store: bool, headers: &Vec<Vec<u8>>) -> (r: Result<(), ClientError>)
    requires
        old(jar).wf(),
    ensures
        final(jar).wf(),
        !cookie_store ==> r is Ok && final(jar)@ == old(jar)@,
        cookie_store ==> (r is Ok <==> all_parse(headers@)),
        cookie_store && r is Ok ==> final(jar)@ == inserted_all(old(jar)@, cookies_of(headers@)),
        r is Err ==> r == Err::<(), ClientError>(ClientError::CookieParse) && final(jar)@ == old(jar)@,
{
    if !cookie_store {
        return Ok(());
    }
    match decode_set_cookies(headers) {
        Ok(cs) => {
            jar.add_all(cs);
            Ok(())
        },
        Err(e) => Err(e),
    }
}

} // verus!
