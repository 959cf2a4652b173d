//! The client: its cookie jar, whether the cookie store is on, and the
//! transport that carries its requests. Every operation here is exclusive
//! or read-only on the jar; sharing one client among concurrent requests is
//! done by putting it behind a reader-writer lock, taken around each of
//! these calls and never across the transport call.
use vstd::prelude::*;
use crate::jar::{header_text, inserted, inserted_all, keys_unique, CookieJar, CookieView, StoredCookie};
use crate::pipeline::{all_parse, cookies_of, merge_set_cookies, outgoing_cookie_header, ClientError};
use crate::wire::header_text_ok;
use vstd::utf8::{decode_utf8, valid_utf8};

verus! {

pub struct Client<B> {
    jar: CookieJar,
    cookie_store: bool,
    backend: B,
}

impl<B> Client<B> {
    /// The cookies of the jar, in order of first insertion.
    pub closed spec fn jar_view(&self) -> Seq<CookieView> {
        self.jar@
    }

    pub closed spec fn cookie_store_enabled(&self) -> bool {
        self.cookie_store
    }

    pub closed spec fn backend_view(&self) -> B {
        self.backend
    }

    /// A client over `backend`, with an empty jar and the cookie store off.
    pub fn with_backend(backend: B) -> (r: Client<B>)
        ensures
            r.jar_view() == Seq::<CookieView>::empty(),
            !r.cookie_store_enabled(),
            r.backend_view() == backend,
    {
        Client { jar: CookieJar::new(), cookie_store: false, backend }
    }

    pub fn backend(&self) -> (r: &B)
        ensures
            *r == self.backend_view(),
    {
        &self.backend
    }

    pub fn jar(&self) -> (r: &CookieJar)
        ensures
            r@ == self.jar_view(),
            r.wf() == keys_unique(self.jar_view()),
    {
        &self.jar
    }

    pub fn is_cookie_store_enabled(&self) -> (r: bool)
        ensures
            r == self.cookie_store_enabled(),
    {
        self.cookie_store
    }

    pub fn enable_cookie_store(&mut self)
        ensures
            final(self).cookie_store_enabled(),
            final(self).jar_view() == old(self).jar_view(),
            final(self).backend_view() == old(self).backend_view(),
    {
        self.cookie_store = true;
    }

    pub fn disable_cookie_store(&mut self)
        ensures
            !final(self).cookie_store_enabled(),
            final(self).jar_view() == old(self).jar_view(),
            final(self).backend_view() == old(self).backend_view(),
    {
        self.cookie_store = false;
    }

    /// Inserts `cookie` into the jar by "original" insertion.
    pub fn set_cookie(&mut self, cookie: StoredCookie)
        requires
            keys_unique(old(self).jar_view()),
        ensures
            keys_unique(final(self).jar_view()),
            final(self).jar_view() == inserted(old(self).jar_view(), cookie@),
            final(self).cookie_store_enabled() == old(self).cookie_store_enabled(),
            final(self).backend_view() == old(self).backend_view(),
    {
        self.jar.add_original(cookie);
    }

    /// Adds `cookie` to the jar and hands the client back, for chaining.
    pub fn cookie(self, cookie: StoredCookie) -> (r: Self)
        requires
            keys_unique(self.jar_view()),
        ensures
            keys_unique(r.jar_view()),
            r.jar_view() == inserted(self.jar_view(), cookie@),
            r.cookie_store_enabled() == self.cookie_store_enabled(),
            r.backend_view() == self.backend_view(),
    {
        let mut c = self;
        c.set_cookie(cookie);
        c
    }

    /// The text of the outgoing `Cookie` header: none where the cookie
    /// store is off, else every cookie of the jar as `name=value`, joined
    /// by `;`.
    pub fn cookie_header(&self) -> (r: Option<String>)
        ensures
            r is None <==> !self.cookie_store_enabled(),
            r matches Some(t) ==> t@ == header_text(self.jar_view()),
    {
        if self.cookie_store {
            Some(self.jar.cookie_header())
        } else {
            None
        }
    }

    /// The `Cookie` header for a request on its way out, with its bytes:
    /// none where the cookie store is off or the jar is empty, an error
    /// where the jar's text cannot be a header value.
    pub fn outgoing_cookie_header(&self) -> (r: Result<Option<(http::HeaderValue, Vec<u8>)>, ClientError>)
        ensures
            !self.cookie_store_enabled() || self.jar_view().len() == 0 ==> r matches Ok(None),
            self.cookie_store_enabled() && self.jar_view().len() > 0 ==> (r matches Ok(Some(_))
                <==> header_text_ok(header_text(self.jar_view()))),
            self.cookie_store_enabled() && self.jar_view().len() > 0 ==> (!header_text_ok(
                header_text(self.jar_view()),
            ) <==> r == Err::<Option<(http::HeaderValue, Vec<u8>)>, ClientError>(
                ClientError::HeaderEncoding,
            )),
            r matches Ok(Some((_, b))) ==> valid_utf8(b@) && decode_utf8(b@) == header_text(
                self.jar_view(),
            ),
    {
        outgoing_cookie_header(&self.jar, self.cookie_store)
    }

    /// Merges the `Set-Cookie` headers of a response into the jar. With the
    /// cookie store off nothing is read and the jar stays as it is.
    /// Otherwise either every header is a cookie and all of them are
    /// inserted in order, or the merge fails with `CookieParse` and the jar
    /// stays as it is.
    pub fn merge_set_cookies(&mut self, headers: &Vec<Vec<u8>>) -> (r: Result<(), ClientError>)
        requires
            keys_unique(old(self).jar_view()),
        ensures
            keys_unique(final(self).jar_view()),
            final(self).cookie_store_enabled() == old(self).cookie_store_enabled(),
            final(self).backend_view() == old(self).backend_view(),
            !old(self).cookie_store_enabled() ==> r is Ok && final(self).jar_view() == old(self).jar_view(),
            old(self).cookie_store_enabled() ==> (r is Ok <==> all_parse(headers@)),
            old(self).cookie_store_enabled() && r is Ok ==> final(self).jar_view() == inserted_all(
                old(self).jar_view(),
                cookies_of(headers@),
            ),
            r is Err ==> r == Err::<(), ClientError>(ClientError::CookieParse) && final(self).jar_view()
                == old(self).jar_view(),
    {
        merge_set_cookies(&mut self.jar, self.cookie_store, headers)
    }
}

impl<B: Default> Client<B> {
    /// A client over the default transport, with an empty jar and the
    /// cookie store off.
    pub fn new() -> (r: Client<B>)
        ensures
            r.jar_view() == Seq::<CookieView>::empty(),
            !r.cookie_store_enabled(),
    {
        Client::with_backend(B::default())
    }
}

} // verus!
