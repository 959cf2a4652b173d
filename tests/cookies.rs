use zenwave::pipeline::{
    cookie_header_value, decode_set_cookies, merge_set_cookies, outgoing_cookie_header,
    request_uri,
};
use zenwave::{Client, ClientError, CookieJar, StoredCookie};

fn cookie(name: &str, value: &str, domain: Option<&str>, path: Option<&str>) -> StoredCookie {
    StoredCookie {
        name: name.to_string(),
        value: value.to_string(),
        domain: domain.map(|d| d.to_string()),
        path: path.map(|p| p.to_string()),
    }
}

fn header_of(jar: &CookieJar, cookie_store: bool) -> Option<String> {
    outgoing_cookie_header(jar, cookie_store)
        .unwrap()
        .map(|(v, b)| {
            assert_eq!(v.as_bytes(), &b[..]);
            v.to_str().unwrap().to_string()
        })
}

fn set_cookie(s: &str) -> Vec<u8> {
    s.as_bytes().to_vec()
}

#[test]
fn fresh_jar_sends_no_cookie_header_then_received_cookie_goes_out() {
    let mut jar = CookieJar::new();
    assert_eq!(header_of(&jar, true), None);
    let headers = vec![set_cookie("id=42; Path=/")];
    assert_eq!(merge_set_cookies(&mut jar, true, &headers), Ok(()));
    assert_eq!(jar.len(), 1);
    assert_eq!(jar.get(0).path.as_deref(), Some("/"));
    assert_eq!(header_of(&jar, true), Some("id=42".to_string()));
}

#[test]
fn later_cookie_of_same_identity_wins_across_responses() {
    let mut jar = CookieJar::new();
    let headers = vec![set_cookie("id=1"), set_cookie("id=2")];
    assert_eq!(merge_set_cookies(&mut jar, true, &headers), Ok(()));
    assert_eq!(merge_set_cookies(&mut jar, true, &headers), Ok(()));
    assert_eq!(jar.len(), 1);
    assert_eq!(jar.get(0).value, "2");
    assert_eq!(header_of(&jar, true), Some("id=2".to_string()));
}

#[test]
fn same_set_cookie_twice_keeps_one_entry() {
    let mut jar = CookieJar::new();
    let headers = vec![set_cookie("a=1; Domain=example.com; Path=/x")];
    assert_eq!(merge_set_cookies(&mut jar, true, &headers), Ok(()));
    assert_eq!(merge_set_cookies(&mut jar, true, &headers), Ok(()));
    assert_eq!(jar.len(), 1);
    assert_eq!(jar.get(0).domain.as_deref(), Some("example.com"));
}

#[test]
fn every_delivered_cookie_is_stored() {
    let mut jar = CookieJar::new();
    let headers = vec![set_cookie("a=1"), set_cookie("b=2; Path=/"), set_cookie("c=3")];
    assert_eq!(merge_set_cookies(&mut jar, true, &headers), Ok(()));
    assert_eq!(jar.len(), 3);
    assert_eq!(header_of(&jar, true), Some("a=1;b=2;c=3".to_string()));
}

#[test]
fn no_set_cookie_headers_leave_jar_unchanged() {
    let mut jar = CookieJar::new();
    jar.add_original(StoredCookie::new("k".to_string(), "v".to_string()));
    assert_eq!(merge_set_cookies(&mut jar, true, &Vec::new()), Ok(()));
    assert_eq!(jar.len(), 1);
}

#[test]
fn identity_is_name_domain_and_path() {
    let mut jar = CookieJar::new();
    jar.add_original(cookie("id", "1", None, Some("/a")));
    jar.add_original(cookie("id", "2", None, Some("/b")));
    jar.add_original(cookie("id", "3", Some("example.com"), Some("/a")));
    assert_eq!(jar.len(), 3);
    jar.add_original(cookie("id", "4", None, Some("/a")));
    assert_eq!(jar.len(), 3);
    assert_eq!(jar.get(0).value, "4");
    assert_eq!(jar.cookie_header(), "id=4;id=2;id=3");
}

#[test]
fn header_joins_pairs_without_space() {
    let mut jar = CookieJar::new();
    assert_eq!(jar.cookie_header(), "");
    jar.add_original(StoredCookie::new("a".to_string(), "x".to_string()));
    assert_eq!(jar.cookie_header(), "a=x");
    jar.add_original(StoredCookie::new("b".to_string(), "y".to_string()));
    assert_eq!(jar.cookie_header(), "a=x;b=y");
}

#[test]
fn disabled_store_sends_nothing_and_reads_nothing() {
    let mut jar = CookieJar::new();
    jar.add_original(StoredCookie::new("a".to_string(), "x".to_string()));
    assert_eq!(header_of(&jar, false), None);
    let headers = vec![set_cookie("b=y"), vec![0xff, 0xfe]];
    assert_eq!(merge_set_cookies(&mut jar, false, &headers), Ok(()));
    assert_eq!(jar.len(), 1);
    assert_eq!(jar.cookie_header(), "a=x");
}

#[test]
fn invalid_utf8_set_cookie_fails_and_leaves_jar() {
    let mut jar = CookieJar::new();
    let headers = vec![set_cookie("a=1"), vec![b'b', b'=', 0xff]];
    assert_eq!(merge_set_cookies(&mut jar, true, &headers), Err(ClientError::CookieParse));
    assert_eq!(jar.len(), 0);
}

#[test]
fn set_cookie_with_empty_name_fails() {
    assert_eq!(
        decode_set_cookies(&vec![set_cookie("=value")]).err(),
        Some(ClientError::CookieParse)
    );
    assert_eq!(decode_set_cookies(&vec![set_cookie("novalue")]).err(), Some(ClientError::CookieParse));
}

#[test]
fn decoded_set_cookie_reads_attributes() {
    let cs = decode_set_cookies(&vec![set_cookie("sid=abc; Domain=.example.com; Path=/p; HttpOnly")]).unwrap();
    assert_eq!(cs.len(), 1);
    assert_eq!(cs[0].name, "sid");
    assert_eq!(cs[0].value, "abc");
    assert_eq!(cs[0].domain.as_deref(), Some("example.com"));
    assert_eq!(cs[0].path.as_deref(), Some("/p"));
}

#[test]
fn control_character_in_cookie_header_is_an_encoding_error() {
    let mut jar = CookieJar::new();
    jar.add_original(StoredCookie::new("a".to_string(), "x\ny".to_string()));
    assert_eq!(outgoing_cookie_header(&jar, true).err(), Some(ClientError::HeaderEncoding));
    assert_eq!(cookie_header_value(Some("a=\u{7f}".to_string())).err(), Some(ClientError::HeaderEncoding));
    let (v, b) = cookie_header_value(Some("a=b\tc".to_string())).unwrap().unwrap();
    assert_eq!(v.to_str().unwrap(), "a=b\tc");
    assert_eq!(b, b"a=b\tc".to_vec());
    assert!(cookie_header_value(Some(String::new())).unwrap().is_none());
    assert!(cookie_header_value(None).unwrap().is_none());
}

#[test]
fn uri_conversion() {
    assert!(request_uri("http://example.com").is_ok());
    assert_eq!(request_uri("").err(), Some(ClientError::InvalidUri));
    assert_eq!(request_uri("http://exa mple.com").err(), Some(ClientError::InvalidUri));
    let u = request_uri("http://example.com/a?b=c").unwrap();
    assert_eq!(u.path(), "/a");
    assert_eq!(u.host(), Some("example.com"));
}
