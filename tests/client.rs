use zenwave::{Client, ClientError, RequestMethod, StoredCookie};

fn sent_header(client: &Client<()>) -> Option<String> {
    client.outgoing_cookie_header().unwrap().map(|(v, b)| {
        assert_eq!(v.as_bytes(), &b[..]);
        String::from_utf8(b).unwrap()
    })
}

#[test]
fn new_client_has_cookie_store_off_and_empty_jar() {
    let client = Client::<()>::new();
    assert!(!client.is_cookie_store_enabled());
    assert_eq!(client.jar().len(), 0);
    assert_eq!(client.cookie_header(), None);
    assert_eq!(sent_header(&client), None);
}

#[test]
fn fresh_client_round_trip_of_a_cookie() {
    let mut client = Client::<()>::new();
    client.enable_cookie_store();
    assert_eq!(sent_header(&client), None);
    assert_eq!(client.merge_set_cookies(&vec![b"id=42; Path=/".to_vec()]), Ok(()));
    assert_eq!(client.jar().len(), 1);
    assert_eq!(client.jar().get(0).name, "id");
    assert_eq!(client.jar().get(0).value, "42");
    assert_eq!(client.jar().get(0).path.as_deref(), Some("/"));
    assert_eq!(sent_header(&client), Some("id=42".to_string()));
}

#[test]
fn client_two_responses_keep_latest() {
    let mut client = Client::<()>::new();
    client.enable_cookie_store();
    let headers = vec![b"id=1".to_vec(), b"id=2".to_vec()];
    assert_eq!(client.merge_set_cookies(&headers), Ok(()));
    assert_eq!(client.merge_set_cookies(&headers), Ok(()));
    assert_eq!(client.jar().len(), 1);
    assert_eq!(sent_header(&client), Some("id=2".to_string()));
}

#[test]
fn with_cookie_goes_out_on_next_send() {
    let mut client = Client::<()>::new().cookie(StoredCookie::new("token".to_string(), "t1".to_string()));
    client.enable_cookie_store();
    assert_eq!(sent_header(&client), Some("token=t1".to_string()));
    let client = client.cookie(StoredCookie::new("token".to_string(), "t2".to_string()));
    assert_eq!(client.cookie_header(), Some("token=t2".to_string()));
}

#[test]
fn disabling_cookie_store_stops_injection_and_merge() {
    let mut client = Client::<()>::new().cookie(StoredCookie::new("a".to_string(), "1".to_string()));
    client.enable_cookie_store();
    client.disable_cookie_store();
    assert_eq!(sent_header(&client), None);
    assert_eq!(client.merge_set_cookies(&vec![vec![0xff], b"b=2".to_vec()]), Ok(()));
    assert_eq!(client.jar().len(), 1);
    client.enable_cookie_store();
    assert_eq!(sent_header(&client), Some("a=1".to_string()));
}

#[test]
fn client_merge_error_leaves_jar() {
    let mut client = Client::<()>::new().cookie(StoredCookie::new("k".to_string(), "v".to_string()));
    client.enable_cookie_store();
    assert_eq!(
        client.merge_set_cookies(&vec![b"a=1".to_vec(), b"=2".to_vec()]),
        Err(ClientError::CookieParse)
    );
    assert_eq!(client.cookie_header(), Some("k=v".to_string()));
}

#[test]
fn client_header_encoding_error() {
    let mut client = Client::<()>::new().cookie(StoredCookie::new("k".to_string(), "a\u{0}b".to_string()));
    client.enable_cookie_store();
    assert_eq!(client.outgoing_cookie_header().err(), Some(ClientError::HeaderEncoding));
}

#[test]
fn method_rejects_invalid_uri() {
    let client = Client::<()>::new();
    assert!(matches!(client.get(""), Err(ClientError::InvalidUri)));
    assert!(matches!(client.post("http://a b"), Err(ClientError::InvalidUri)));
    let builder = client.get("http://example.com").unwrap();
    assert_eq!(builder.method(), RequestMethod::Get);
    assert_eq!(builder.uri(), "http://example.com");
    assert!(builder.headers().is_empty());
    let (prepared, _) = builder.into_parts();
    assert_eq!(prepared.method, RequestMethod::Get);
    assert_eq!(prepared.method.to_http(), http::Method::GET);
    assert_eq!(prepared.uri_text, "http://example.com");
    assert_eq!(prepared.uri.host(), Some("example.com"));
}

#[test]
fn builder_fields_can_change_before_sending() {
    let client = Client::<()>::new();
    let mut builder = client.delete("http://example.com/x").unwrap();
    assert_eq!(builder.method(), RequestMethod::Delete);
    builder.set_method(RequestMethod::Patch);
    assert_eq!(builder.set_uri("not a uri"), Err(ClientError::InvalidUri));
    assert_eq!(builder.uri(), "http://example.com/x");
    assert_eq!(builder.set_uri("http://example.org/y"), Ok(()));
    builder
        .headers_mut()
        .insert("x-test", http::HeaderValue::from_static("1"));
    builder
        .headers_mut()
        .append("x-test", http::HeaderValue::from_static("2"));
    *builder.body_mut() = http_kit::Body::from_bytes(b"payload".to_vec());
    let (prepared, _) = builder.into_parts();
    assert_eq!(prepared.method, RequestMethod::Patch);
    assert_eq!(prepared.method.to_http(), http::Method::PATCH);
    assert_eq!(prepared.uri_text, "http://example.org/y");
    assert_eq!(prepared.uri.path(), "/y");
    let values: Vec<&str> = prepared
        .headers
        .get_all("x-test")
        .iter()
        .map(|v| v.to_str().unwrap())
        .collect();
    assert_eq!(values, vec!["1", "2"]);
    assert_eq!(client.put("http://example.com").unwrap().method(), RequestMethod::Put);
    assert_eq!(client.post("http://example.com").unwrap().method(), RequestMethod::Post);
    let (p, _) = client.method(RequestMethod::Options, "http://e.com").unwrap().into_parts();
    assert_eq!(p.method.to_http(), http::Method::OPTIONS);
    let (p, _) = client.method(RequestMethod::Head, "http://e.com").unwrap().into_parts();
    assert_eq!(p.method.to_http(), http::Method::HEAD);
}
