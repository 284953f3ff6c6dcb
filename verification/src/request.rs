//! The HTTP request: an immutable head plus a body, built through a fallible
//! builder that keeps the first conversion error.

use vstd::prelude::*;

use crate::body::Body;
use crate::error::{Error, ErrorKind, InvalidHeaderName, InvalidMethod, InvalidVersion};
use crate::header::name::{spec_header_name_of, HeaderName};
use crate::header::value::HeaderValue;
use crate::header::HeaderMap;
use crate::method::{spec_method_of, Method};
use crate::uri::Uri;
use crate::version::{spec_version_of, Version};

verus! {

/// The head of a request: method, URI, version and headers.
#[derive(Debug)]
pub struct Parts {
    /// The request's method
    pub method: Method,
    /// The request's URI
    pub uri: Uri,
    /// The request's version
    pub version: Version,
    /// The request's headers
    pub headers: HeaderMap,
}

impl Parts {
    /// The head's headers never hold two entries with one name.
    pub open spec fn wf(&self) -> bool {
        self.headers.wf()
    }

    /// Creates a default head: `GET / HTTP/1.1` with no headers.
    pub fn new() -> (p: Parts)
        ensures
            p.wf(),
            p.method == Method::Get,
            p.uri@ == seq!['/' as u8],
            p.version == Version::Http11,
            p.headers.as_map() == Map::<HeaderName, Seq<u8>>::empty(),
    {
        Parts {
            method: Method::Get,
            uri: Uri::default(),
            version: Version::Http11,
            headers: HeaderMap::new(),
        }
    }
}

/// An HTTP request: a head and a body payload it owns.
#[derive(Debug)]
pub struct Request<T> {
    head: Parts,
    body: T,
}

/// An HTTP request builder.
///
/// Accumulates a partially constructed head; the first conversion failure
/// freezes the builder, later steps keep that error, and finalization hands
/// it back.
#[derive(Debug)]
pub struct Builder {
    inner: Result<Parts, Error>,
}

impl Builder {
    /// The builder's state: the head built so far, or the first error.
    pub closed spec fn state(&self) -> Result<Parts, Error> {
        self.inner
    }

    /// A held head keeps its headers well-formed.
    pub open spec fn wf(&self) -> bool {
        self.state() is Ok ==> self.state()->Ok_0.wf()
    }

    /// Creates a new `Builder` holding a default head.
    pub fn new() -> (b: Builder)
        ensures
            b.wf(),
            b.state() is Ok,
            b.state()->Ok_0.method == Method::Get,
            b.state()->Ok_0.uri@ == seq!['/' as u8],
            b.state()->Ok_0.version == Version::Http11,
            b.state()->Ok_0.headers.as_map() == Map::<HeaderName, Seq<u8>>::empty(),
    {
        Builder { inner: Ok(Parts::new()) }
    }

    /// Sets the HTTP method of the request that the `Builder` is
    /// constructing, from its wire token.
    pub fn with_method(self, method: &[u8]) -> (r: Builder)
        requires
            self.wf(),
        ensures
            r.wf(),
            match self.state() {
                Ok(p) => match spec_method_of(method@) {
                    Some(m) => {
                        &&& r.state() is Ok
                        &&& r.state()->Ok_0.method == m
                        &&& r.state()->Ok_0.uri == p.uri
                        &&& r.state()->Ok_0.version == p.version
                        &&& r.state()->Ok_0.headers == p.headers
                    },
                    None => r.state() is Err && r.state()->Err_0.kind() == ErrorKind::Method(
                        InvalidMethod,
                    ),
                },
                Err(e) => r.state() == Err::<Parts, Error>(e),
            },
    {
        match self.inner {
            Ok(mut p) => match Method::from_bytes(method) {
                Ok(m) => {
                    p.method = m;
                    Builder { inner: Ok(p) }
                },
                Err(e) => Builder { inner: Err(e) },
            },
            Err(e) => Builder { inner: Err(e) },
        }
    }

    /// Sets the URI of the request that the `Builder` is constructing.
    ///
    /// Wire input is preserved verbatim; it is not canonicalized.
    pub fn with_uri(self, uri: &[u8]) -> (r: Builder)
        requires
            self.wf(),
        ensures
            r.wf(),
            match self.state() {
                Ok(p) => {
                    &&& r.state() is Ok
                    &&& r.state()->Ok_0.method == p.method
                    &&& r.state()->Ok_0.uri@ == uri@
                    &&& r.state()->Ok_0.version == p.version
                    &&& r.state()->Ok_0.headers == p.headers
                },
                Err(e) => r.state() == Err::<Parts, Error>(e),
            },
    {
        match self.inner {
            Ok(mut p) => {
                p.uri = Uri::from_wire(vstd::slice::slice_to_vec(uri));
                Builder { inner: Ok(p) }
            },
            Err(e) => Builder { inner: Err(e) },
        }
    }

    /// Sets the HTTP version of the request that the `Builder` is
    /// constructing, from its wire token.
    pub fn with_version(self, version: &[u8]) -> (r: Builder)
        requires
            self.wf(),
        ensures
            r.wf(),
            match self.state() {
                Ok(p) => match spec_version_of(version@) {
                    Some(v) => {
                        &&& r.state() is Ok
                        &&& r.state()->Ok_0.method == p.method
                        &&& r.state()->Ok_0.uri == p.uri
                        &&& r.state()->Ok_0.version == v
                        &&& r.state()->Ok_0.headers == p.headers
                    },
                    None => r.state() is Err && r.state()->Err_0.kind() == ErrorKind::Version(
                        InvalidVersion,
                    ),
                },
                Err(e) => r.state() == Err::<Parts, Error>(e),
            },
    {
        match self.inner {
            Ok(mut p) => match Version::from_bytes(version) {
                Ok(v) => {
                    p.version = v;
                    Builder { inner: Ok(p) }
                },
                Err(e) => Builder { inner: Err(e) },
            },
            Err(e) => Builder { inner: Err(e) },
        }
    }

    /// Inserts a pair of header-name and header-value, given as raw bytes.
    pub fn with_header(self, name: &[u8], value: &[u8]) -> (r: Builder)
        requires
            self.wf(),
        ensures
            r.wf(),
            match self.state() {
                Ok(p) => match spec_header_name_of(name@) {
                    Some(n) => {
                        &&& r.state() is Ok
                        &&& r.state()->Ok_0.method == p.method
                        &&& r.state()->Ok_0.uri == p.uri
                        &&& r.state()->Ok_0.version == p.version
                        &&& r.state()->Ok_0.headers.as_map() == p.headers.as_map().insert(
                            n,
                            value@,
                        )
                    },
                    None => r.state() is Err && r.state()->Err_0.kind() == ErrorKind::Header(
                        InvalidHeaderName,
                    ),
                },
                Err(e) => r.state() == Err::<Parts, Error>(e),
            },
    {
        match self.inner {
            Ok(mut p) => match p.headers.insert(name, value) {
                Ok(_) => Builder { inner: Ok(p) },
                Err(e) => Builder { inner: Err(e) },
            },
            Err(e) => Builder { inner: Err(e) },
        }
    }

    /// Sets the body and finalizes: the complete request, or the first error
    /// the builder recorded.
    pub fn with_body<T: Body>(self, body: T) -> (r: Result<Request<T>, Error>)
        requires
            self.wf(),
        ensures
            match self.state() {
                Ok(p) => {
                    &&& r is Ok
                    &&& r->Ok_0.spec_head() == p
                    &&& r->Ok_0.spec_body() == body
                    &&& r->Ok_0.wf()
                },
                Err(e) => r == Err::<Request<T>, Error>(e),
            },
    {
        match self.inner {
            Ok(head) => Ok(Request { head, body }),
            Err(e) => Err(e),
        }
    }
}

impl Request<()> {
    /// Returns a `Builder` that constructs a `Request`.
    pub fn builder() -> (b: Builder)
        ensures
            b.wf(),
            b.state() is Ok,
            b.state()->Ok_0.method == Method::Get,
            b.state()->Ok_0.uri@ == seq!['/' as u8],
            b.state()->Ok_0.version == Version::Http11,
            b.state()->Ok_0.headers.as_map() == Map::<HeaderName, Seq<u8>>::empty(),
    {
        Builder::new()
    }
}

impl<T> Request<T> {
    /// The request's head, as a contract speaks of it.
    pub closed spec fn spec_head(&self) -> Parts {
        self.head
    }

    /// The request's body, as a contract speaks of it.
    pub closed spec fn spec_body(&self) -> T {
        self.body
    }

    /// The head's headers are well-formed.
    pub open spec fn wf(&self) -> bool {
        self.spec_head().wf()
    }

    /// Returns a reference to the HTTP method of the `Request`.
    pub fn method(&self) -> (m: &Method)
        ensures
            *m == self.spec_head().method,
    {
        &self.head.method
    }

    /// Returns a reference to the URI of the `Request`.
    pub fn uri(&self) -> (u: &Uri)
        ensures
            *u == self.spec_head().uri,
    {
        &self.head.uri
    }

    /// Returns the HTTP version of the `Request`.
    pub fn version(&self) -> (v: &Version)
        ensures
            *v == self.spec_head().version,
    {
        &self.head.version
    }

    /// Returns a reference to the Request's `HeaderMap`.
    pub fn headers(&self) -> (h: &HeaderMap)
        ensures
            *h == self.spec_head().headers,
    {
        &self.head.headers
    }

    /// Returns the header-value for the specified header-name, if the request
    /// carries that header.
    pub fn get_header(&self, name: &HeaderName) -> (r: Option<&HeaderValue>)
        requires
            self.wf(),
        ensures
            match r {
                Some(v) => self.spec_head().headers.as_map().contains_key(*name) && v@
                    == self.spec_head().headers.as_map()[*name],
                None => !self.spec_head().headers.as_map().contains_key(*name),
            },
    {
        self.head.headers.get(name)
    }

    /// Returns a reference to the body of the `Request`.
    pub fn body(&self) -> (b: &T)
        ensures
            *b == self.spec_body(),
    {
        &self.body
    }
}

} // verus!
