//! The body of a message: a payload with a byte rendering.

use vstd::prelude::*;
use vstd::string::StringSliceAdditionalSpecFns;
use vstd::string::StrSliceExecFns;

verus! {

/// A payload that can stand as the body of a request or response.
///
/// The byte rendering is what the codec writes to the wire, and its length is
/// what the response builder records as Content-Length.
pub trait Body {
    /// The bytes the payload renders to.
    spec fn byte_view(&self) -> Seq<u8>;

    /// Returns the number of bytes of the body.
    fn content_len(&self) -> (n: usize)
        ensures
            n == self.byte_view().len(),
    ;

    /// Copies the body's bytes out.
    fn to_bytes(&self) -> (b: Vec<u8>)
        ensures
            b@ == self.byte_view(),
    ;
}

impl Body for Vec<u8> {
    open spec fn byte_view(&self) -> Seq<u8> {
        self@
    }

    fn content_len(&self) -> (n: usize)
        ensures
            n == self.byte_view().len(),
    {
        self.len()
    }

    fn to_bytes(&self) -> (b: Vec<u8>)
        ensures
            b@ == self.byte_view(),
    {
        let b = self.clone();
        proof {
            assert(b@ =~= self@);
        }
        b
    }
}

impl Body for String {
    open spec fn byte_view(&self) -> Seq<u8> {
        vstd::utf8::encode_utf8(self@)
    }

    fn content_len(&self) -> (n: usize)
        ensures
            n == self.byte_view().len(),
    {
        let s = self.as_str();
        proof {
            assert(s.spec_bytes() == vstd::utf8::encode_utf8(self@));
        }
        let b = s.as_bytes();
        b.len()
    }

    fn to_bytes(&self) -> (b: Vec<u8>)
        ensures
            b@ == self.byte_view(),
    {
        let s = self.as_str();
        proof {
            assert(s.spec_bytes() == vstd::utf8::encode_utf8(self@));
        }
        s.as_bytes_vec()
    }
}

} // verus!
