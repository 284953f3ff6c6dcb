//! The HTTP response: an immutable head plus a body, built through a
//! fallible builder.
//!
//! Finalizing the builder computes the body's byte length and records it as
//! the Content-Length header — the one builder-level side effect.

use vstd::prelude::*;

use crate::body::Body;
use crate::bytes_util::{spec_dec_bytes, u64_to_dec};
use crate::error::{Error, ErrorKind, InvalidHeaderName, InvalidStatusCode, InvalidVersion};
use crate::header::name::{spec_header_name_of, HeaderName};
use crate::header::value::HeaderValue;
use crate::header::HeaderMap;
use crate::status::StatusCode;
use crate::version::{spec_version_of, Version};

verus! {

/// The head of a response: status, version and headers.
#[derive(Debug)]
pub struct Parts {
    /// The response's status
    pub status: StatusCode,
    /// The response's version
    pub version: Version,
    /// The response's headers
    pub headers: HeaderMap,
}

impl Parts {
    /// The status is nonzero and the headers are well-formed.
    pub open spec fn wf(&self) -> bool {
        self.status.wf() && self.headers.wf()
    }

    /// Creates a default head: `200 OK`, `HTTP/1.1`, no headers.
    pub fn new() -> (p: Parts)
        ensures
            p.wf(),
            p.status.as_u16() == 200,
            p.version == Version::Http11,
            p.headers.as_map() == Map::<HeaderName, Seq<u8>>::empty(),
    {
        Parts {
            status: StatusCode::default(),
            version: Version::Http11,
            headers: HeaderMap::new(),
        }
    }
}

/// An HTTP response: a head and a body payload it owns.
#[derive(Debug)]
pub struct Response<T> {
    head: Parts,
    body: T,
}

/// An HTTP response builder.
///
/// Accumulates a partially constructed head; the first conversion failure
/// freezes the builder, later steps keep that error, and finalization hands
/// it back.
#[derive(Debug)]
pub struct Builder {
    inner: Result<Parts, Error>,
}

impl Builder {
    /// The builder's state: the head built so far, or the first error.
    pub closed spec fn state(&self) -> Result<Parts, Error> {
        self.inner
    }

    /// A held head keeps its invariants.
    pub open spec fn wf(&self) -> bool {
        self.state() is Ok ==> self.state()->Ok_0.wf()
    }

    /// Creates a new `Builder` holding a default head.
    pub fn new() -> (b: Builder)
        ensures
            b.wf(),
            b.state() is Ok,
            b.state()->Ok_0.status.as_u16() == 200,
            b.state()->Ok_0.version == Version::Http11,
            b.state()->Ok_0.headers.as_map() == Map::<HeaderName, Seq<u8>>::empty(),
    {
        Builder { inner: Ok(Parts::new()) }
    }

    /// Sets the status code of the response that the `Builder` is
    /// constructing. Zero is rejected.
    pub fn with_status(self, status: u16) -> (r: Builder)
        requires
            self.wf(),
        ensures
            r.wf(),
            match self.state() {
                Ok(p) => {
                    if status != 0 {
                        &&& r.state() is Ok
                        &&& r.state()->Ok_0.status.as_u16() == status
                        &&& r.state()->Ok_0.version == p.version
                        &&& r.state()->Ok_0.headers == p.headers
                    } else {
                        &&& r.state() is Err
                        &&& r.state()->Err_0.kind() == ErrorKind::StatusCode(InvalidStatusCode)
                    }
                },
                Err(e) => r.state() == Err::<Parts, Error>(e),
            },
    {
        match self.inner {
            Ok(mut p) => match StatusCode::from_u16(status) {
                Ok(s) => {
                    p.status = s;
                    Builder { inner: Ok(p) }
                },
                Err(e) => Builder { inner: Err(e) },
            },
            Err(e) => Builder { inner: Err(e) },
        }
    }

    /// Sets the HTTP version of the response that the `Builder` is
    /// constructing, from its wire token.
    pub fn with_version(self, version: &[u8]) -> (r: Builder)
        requires
            self.wf(),
        ensures
            r.wf(),
            match self.state() {
                Ok(p) => match spec_version_of(version@) {
                    Some(v) => {
                        &&& r.state() is Ok
                        &&& r.state()->Ok_0.status == p.status
                        &&& r.state()->Ok_0.version == v
                        &&& r.state()->Ok_0.headers == p.headers
                    },
                    None => r.state() is Err && r.state()->Err_0.kind() == ErrorKind::Version(
                        InvalidVersion,
                    ),
                },
                Err(e) => r.state() == Err::<Parts, Error>(e),
            },
    {
        match self.inner {
            Ok(mut p) => match Version::from_bytes(version) {
                Ok(v) => {
                    p.version = v;
                    Builder { inner: Ok(p) }
                },
                Err(e) => Builder { inner: Err(e) },
            },
            Err(e) => Builder { inner: Err(e) },
        }
    }

    /// Inserts a pair of header-name and header-value, given as raw bytes.
    pub fn with_header(self, name: &[u8], value: &[u8]) -> (r: Builder)
        requires
            self.wf(),
        ensures
            r.wf(),
            match self.state() {
                Ok(p) => match spec_header_name_of(name@) {
                    Some(n) => {
                        &&& r.state() is Ok
                        &&& r.state()->Ok_0.status == p.status
                        &&& r.state()->Ok_0.version == p.version
                        &&& r.state()->Ok_0.headers.as_map() == p.headers.as_map().insert(
                            n,
                            value@,
                        )
                    },
                    None => r.state() is Err && r.state()->Err_0.kind() == ErrorKind::Header(
                        InvalidHeaderName,
                    ),
                },
                Err(e) => r.state() == Err::<Parts, Error>(e),
            },
    {
        match self.inner {
            Ok(mut p) => match p.headers.insert(name, value) {
                Ok(_) => Builder { inner: Ok(p) },
                Err(e) => Builder { inner: Err(e) },
            },
            Err(e) => Builder { inner: Err(e) },
        }
    }

    /// Sets the body and finalizes: the complete response, or the first
    /// error the builder recorded.
    ///
    /// On success the head gains a Content-Length header holding the decimal
    /// numeral of the body's byte length.
    pub fn with_body<T: Body>(self, body: T) -> (r: Result<Response<T>, Error>)
        requires
            self.wf(),
        ensures
            match self.state() {
                Ok(p) => {
                    &&& r is Ok
                    &&& r->Ok_0.spec_head().status == p.status
                    &&& r->Ok_0.spec_head().version == p.version
                    &&& r->Ok_0.spec_head().headers.as_map() == p.headers.as_map().insert(
                        HeaderName::ContentLength,
                        spec_dec_bytes(body.byte_view().len()),
                    )
                    &&& r->Ok_0.spec_body() == body
                    &&& r->Ok_0.wf()
                },
                Err(e) => r == Err::<Response<T>, Error>(e),
            },
    {
        match self.inner {
            Ok(mut head) => {
                let len = body.content_len();
                let numeral = u64_to_dec(len as u64);
                let value = HeaderValue::from_slice(numeral.as_slice());
                head.headers.insert_pair(HeaderName::ContentLength, value);
                Ok(Response { head, body })
            },
            Err(e) => Err(e),
        }
    }
}

/// A response built with a body serializes with a Content-Length that
/// denotes exactly the body's byte length: the numeral `with_body` records
/// under Content-Length parses back to the length it was computed from.
pub proof fn lemma_content_length_exact(m: Map<HeaderName, Seq<u8>>, n: nat)
    ensures
        crate::bytes_util::spec_parse_dec(
            m.insert(HeaderName::ContentLength, spec_dec_bytes(n))[HeaderName::ContentLength],
        ) == Some(n),
{
    crate::bytes_util::lemma_dec_roundtrip(n);
}

impl Response<()> {
    /// Returns a `Builder` that constructs a `Response`.
    pub fn builder() -> (b: Builder)
        ensures
            b.wf(),
            b.state() is Ok,
            b.state()->Ok_0.status.as_u16() == 200,
            b.state()->Ok_0.version == Version::Http11,
            b.state()->Ok_0.headers.as_map() == Map::<HeaderName, Seq<u8>>::empty(),
    {
        Builder::new()
    }
}

impl<T> Response<T> {
    /// The response's head, as a contract speaks of it.
    pub closed spec fn spec_head(&self) -> Parts {
        self.head
    }

    /// The response's body, as a contract speaks of it.
    pub closed spec fn spec_body(&self) -> T {
        self.body
    }

    /// The head keeps its invariants.
    pub open spec fn wf(&self) -> bool {
        self.spec_head().wf()
    }

    /// Returns a reference to the HTTP version of the `Response`.
    pub fn version(&self) -> (v: &Version)
        ensures
            *v == self.spec_head().version,
    {
        &self.head.version
    }

    /// Returns a reference to the status code of the `Response`.
    pub fn status(&self) -> (s: &StatusCode)
        ensures
            *s == self.spec_head().status,
    {
        &self.head.status
    }

    /// Returns a reference to the body of the `Response`.
    pub fn body(&self) -> (b: &T)
        ensures
            *b == self.spec_body(),
    {
        &self.body
    }

    /// Returns a reference to the header-map of the `Response`.
    pub fn headers(&self) -> (h: &HeaderMap)
        ensures
            *h == self.spec_head().headers,
    {
        &self.head.headers
    }
}

} // verus!
