//! The header value: an opaque byte sequence with a lossy text rendering.
//!
//! The bytes live in a `bytes::Bytes` buffer, the same cheaply cloneable
//! storage the rest of the ecosystem hands around. Verus sees the buffer
//! through [`bytes_content`] and the small trusted wrappers below.

use vstd::prelude::*;

use bytes::Bytes;

verus! {

/// Declares the outside type `bytes::Bytes` so that values of it can stand
/// in fields and signatures; Verus sees its contents only through
/// [`bytes_content`].
#[verifier::external_type_specification]
#[verifier::external_body]
pub struct ExBytes(Bytes);

/// The byte contents of a `bytes::Bytes` buffer.
pub uninterp spec fn bytes_content(b: Bytes) -> Seq<u8>;

/// Relies on bytes::Bytes::copy_from_slice: the new buffer holds a copy of
/// the slice's bytes.
#[verifier::external_body]
fn bytes_copy_from_slice(data: &[u8]) -> (b: Bytes)
    ensures
        bytes_content(b) == data@,
{
    Bytes::copy_from_slice(data)
}

/// Relies on bytes::Bytes's AsRef<[u8]> impl: the returned slice is the
/// buffer's contents.
#[verifier::external_body]
fn bytes_as_ref(b: &Bytes) -> (s: &[u8])
    ensures
        s@ == bytes_content(*b),
{
    b.as_ref()
}

/// Relies on bytes::Bytes's Clone impl: a clone is a new handle on the same
/// contents.
#[verifier::external_body]
fn bytes_clone(b: &Bytes) -> (r: Bytes)
    ensures
        bytes_content(r) == bytes_content(*b),
{
    b.clone()
}

/// An opaque header value.
#[derive(Debug)]
pub struct HeaderValue {
    inner: Bytes,
}

impl View for HeaderValue {
    type V = Seq<u8>;

    closed spec fn view(&self) -> Seq<u8> {
        bytes_content(self.inner)
    }
}

impl HeaderValue {
    /// Copies a byte slice into a new header value.
    pub fn from_slice(data: &[u8]) -> (v: HeaderValue)
        ensures
            v@ == data@,
    {
        HeaderValue { inner: bytes_copy_from_slice(data) }
    }

    /// Returns the value in `Bytes`.
    pub fn as_bytes(&self) -> (b: &Bytes)
        ensures
            bytes_content(*b) == self@,
    {
        &self.inner
    }

    /// Returns the value's bytes as a slice.
    pub fn as_slice(&self) -> (s: &[u8])
        ensures
            s@ == self@,
    {
        bytes_as_ref(&self.inner)
    }

    /// Renders the value as text, lossily.
    ///
    /// Relies on String::from_utf8_lossy: ASCII bytes decode to the same
    /// characters; invalid UTF-8 sequences are replaced, not rejected.
    #[verifier::external_body]
    pub fn to_text(&self) -> (s: String)
        ensures
            (forall|i: int| 0 <= i < self@.len() ==> self@[i] < 128) ==> s@ == self@.map(
                |_i: int, b: u8| b as char,
            ),
    {
        String::from_utf8_lossy(self.inner.as_ref()).into_owned()
    }
}

impl Clone for HeaderValue {
    /// A clone holds the same bytes.
    fn clone(&self) -> (r: Self)
        ensures
            r@ == self@,
    {
        HeaderValue { inner: bytes_clone(&self.inner) }
    }
}

} // verus!
