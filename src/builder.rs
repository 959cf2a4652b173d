//! Staging a request before it runs: the request together with the client
//! that will send it.
use vstd::prelude::*;
use crate::client::Client;
use crate::pipeline::{request_uri, ClientError};
use crate::wire::uri_accepts;

verus! {

#[verifier::external_type_specification]
#[verifier::external_body]
pub struct ExMethod(http::Method);

#[verifier::external_type_specification]
#[verifier::external_body]
#[verifier::reject_recursive_types(T)]
pub struct ExHeaderMap<T>(http::HeaderMap<T>);

#[verifier::external_type_specification]
#[verifier::external_body]
pub struct ExBody(http_kit::Body);

/// Relies on http::HeaderMap::new: a map with no headers.
#[verifier::external_body]
fn empty_headers() -> http::HeaderMap {
    http::HeaderMap::new()
}

/// Relies on http_kit::Body::empty: a body with no bytes.
#[verifier::external_body]
fn empty_body() -> http_kit::Body {
    http_kit::Body::empty()
}

/// Relies on the constant http::Method::GET.
#[verifier::external_body]
fn get_method() -> http::Method {
    http::Method::GET
}

/// Relies on the constant http::Method::POST.
#[verifier::external_body]
fn post_method() -> http::Method {
    http::Method::POST
}

/// Relies on the constant http::Method::PUT.
#[verifier::external_body]
fn put_method() -> http::Method {
    http::Method::PUT
}

/// Relies on the constant http::Method::DELETE.
#[verifier::external_body]
fn delete_method() -> http::Method {
    http::Method::DELETE
}

/// Relies on the constant http::Method::HEAD.
#[verifier::external_body]
fn head_method() -> http::Method {
    http::Method::HEAD
}

/// Relies on the constant http::Method::OPTIONS.
#[verifier::external_body]
fn options_method() -> http::Method {
    http::Method::OPTIONS
}

/// Relies on the constant http::Method::PATCH.
#[verifier::external_body]
fn patch_method() -> http::Method {
    http::Method::PATCH
}

/// The request methods of HTTP.
#[derive(Debug, Clone, Copy, PartialEq, Eq, Structural)]
pub enum RequestMethod {
    Get,
    Post,
    Put,
    Delete,
    Head,
    Options,
    Patch,
}

impl RequestMethod {
    pub fn to_http(self) -> http::Method {
        match self {
            RequestMethod::Get => get_method(),
            RequestMethod::Post => post_method(),
            RequestMethod::Put => put_method(),
            RequestMethod::Delete => delete_method(),
            RequestMethod::Head => head_method(),
            RequestMethod::Options => options_method(),
            RequestMethod::Patch => patch_method(),
        }
    }
}

/// A request ready to be sent: the builder's method and URI, with the
/// URI's text, and its headers and body.
pub struct PreparedRequest {
    pub method: RequestMethod,
    pub uri: http::Uri,
    pub uri_text: String,
    pub headers: http::HeaderMap,
    pub body: http_kit::Body,
}

/// A request that has not run yet, and the client that will send it. Its
/// method, URI, headers and body can each be read and changed until the
/// builder is taken apart.
pub struct RequestBuilder<'a, B> {
    method: RequestMethod,
    uri_text: String,
    uri: http::Uri,
    headers: http::HeaderMap,
    body: http_kit::Body,
    client: &'a Client<B>,
}

impl<'a, B> RequestBuilder<'a, B> {
    pub closed spec fn client_view(&self) -> &'a Client<B> {
        self.client
    }

    pub closed spec fn method_view(&self) -> RequestMethod {
        self.method
    }

    /// The text of the request's URI.
    pub closed spec fn uri_view(&self) -> Seq<char> {
        self.uri_text@
    }

    pub closed spec fn headers_view(&self) -> http::HeaderMap {
        self.headers
    }

    pub closed spec fn body_view(&self) -> http_kit::Body {
        self.body
    }

    pub fn client(&self) -> (r: &'a Client<B>)
        ensures
            r == self.client_view(),
    {
        self.client
    }

    pub fn method(&self) -> (r: RequestMethod)
        ensures
            r == self.method_view(),
    {
        self.method
    }

    pub fn set_method(&mut self, method: RequestMethod)
        ensures
            final(self).method_view() == method,
            final(self).uri_view() == old(self).uri_view(),
            final(self).headers_view() == old(self).headers_view(),
            final(self).body_view() == old(self).body_view(),
            final(self).client_view() == old(self).client_view(),
    {
        self.method = method;
    }

    pub fn uri(&self) -> (r: &str)
        ensures
            r@ == self.uri_view(),
    {
        self.uri_text.as_str()
    }

    /// Points the request at `uri`; fails with `InvalidUri`, leaving the
    /// builder as it was, where `uri` is not a URI.
    pub fn set_uri(&mut self, uri: &str) -> (r: Result<(), ClientError>)
        ensures
            r is Ok <==> uri_accepts(uri@),
            r is Ok ==> final(self).uri_view() == uri@,
            r is Err ==> r == Err::<(), ClientError>(ClientError::InvalidUri) && final(self).uri_view()
                == old(self).uri_view(),
            final(self).method_view() == old(self).method_view(),
            final(self).headers_view() == old(self).headers_view(),
            final(self).body_view() == old(self).body_view(),
            final(self).client_view() == old(self).client_view(),
    {
        match request_uri(uri) {
            Ok(u) => {
                self.uri = u;
                self.uri_text = uri.to_string();
                Ok(())
            },
            Err(e) => Err(e),
        }
    }

    pub fn headers(&self) -> (r: &http::HeaderMap)
        ensures
            *r == self.headers_view(),
    {
        &self.headers
    }

    pub fn headers_mut(&mut self) -> (r: &mut http::HeaderMap)
        ensures
            *r == old(self).headers_view(),
            final(self).headers_view() == *final(r),
            final(self).method_view() == old(self).method_view(),
            final(self).uri_view() == old(self).uri_view(),
            final(self).body_view() == old(self).body_view(),
            final(self).client_view() == old(self).client_view(),
    {
        &mut self.headers
    }

    pub fn body(&self) -> (r: &http_kit::Body)
        ensures
            *r == self.body_view(),
    {
        &self.body
    }

    pub fn body_mut(&mut self) -> (r: &mut http_kit::Body)
        ensures
            *r == old(self).body_view(),
            final(self).body_view() == *final(r),
            final(self).method_view() == old(self).method_view(),
            final(self).uri_view() == old(self).uri_view(),
            final(self).headers_view() == old(self).headers_view(),
            final(self).client_view() == old(self).client_view(),
    {
        &mut self.body
    }

    /// Ends the staging: the request as the builder now holds it, and its
    /// client.
    pub fn into_parts(self) -> (r: (PreparedRequest, &'a Client<B>))
        ensures
            r.0.method == self.method_view(),
            r.0.uri_text@ == self.uri_view(),
            r.0.headers == self.headers_view(),
            r.0.body == self.body_view(),
            r.1 == self.client_view(),
    {
        let prepared = PreparedRequest {
            method: self.method,
            uri: self.uri,
            uri_text: self.uri_text,
            headers: self.headers,
            body: self.body,
        };
        (prepared, self.client)
    }
}

impl<B> Client<B> {
    /// Starts a request with `method` to `uri`; fails with `InvalidUri`
    /// where `uri` is not a URI.
    pub fn method(&self, method: RequestMethod, uri: &str) -> (r: Result<RequestBuilder<'_, B>, ClientError>)
        ensures
            r is Ok <==> uri_accepts(uri@),
            r matches Ok(b) ==> b.client_view() == self && b.method_view() == method && b.uri_view()
                == uri@,
            r matches Err(e) ==> e == ClientError::InvalidUri,
    {
        match request_uri(uri) {
            Ok(u) => Ok(
                RequestBuilder {
                    method,
                    uri_text: uri.to_string(),
                    uri: u,
                    headers: empty_headers(),
                    body: empty_body(),
                    client: self,
                },
            ),
            Err(e) => Err(e),
        }
    }

    /// Starts a `GET` request to `uri`.
    pub fn get(&self, uri: &str) -> (r: Result<RequestBuilder<'_, B>, ClientError>)
        ensures
            r is Ok <==> uri_accepts(uri@),
            r matches Ok(b) ==> b.client_view() == self && b.method_view() == RequestMethod::Get && b.uri_view()
                == uri@,
            r matches Err(e) ==> e == ClientError::InvalidUri,
    {
        self.method(RequestMethod::Get, uri)
    }

    /// Starts a `POST` request to `uri`.
    pub fn post(&self, uri: &str) -> (r: Result<RequestBuilder<'_, B>, ClientError>)
        ensures
            r is Ok <==> uri_accepts(uri@),
            r matches Ok(b) ==> b.client_view() == self && b.method_view() == RequestMethod::Post && b.uri_view()
                == uri@,
            r matches Err(e) ==> e == ClientError::InvalidUri,
    {
        self.method(RequestMethod::Post, uri)
    }

    /// Starts a `PUT` request to `uri`.
    pub fn put(&self, uri: &str) -> (r: Result<RequestBuilder<'_, B>, ClientError>)
        ensures
            r is Ok <==> uri_accepts(uri@),
            r matches Ok(b) ==> b.client_view() == self && b.method_view() == RequestMethod::Put && b.uri_view()
                == uri@,
            r matches Err(e) ==> e == ClientError::InvalidUri,
    {
        self.method(RequestMethod::Put, uri)
    }

    /// Starts a `DELETE` request to `uri`.
    pub fn delete(&self, uri: &str) -> (r: Result<RequestBuilder<'_, B>, ClientError>)
        ensures
            r is Ok <==> uri_accepts(uri@),
            r matches Ok(b) ==> b.client_view() == self && b.method_view() == RequestMethod::Delete && b.uri_view()
                == uri@,
            r matches Err(e) ==> e == ClientError::InvalidUri,
    {
        self.method(RequestMethod::Delete, uri)
    }
}

} // verus!
