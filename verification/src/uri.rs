//! The request URI: a path kept as raw bytes.
//!
//! A URI built with [`Uri::new`] is canonical: it starts with `/`. A URI
//! taken verbatim from wire input ([`Uri::from_wire`]) may be non-canonical;
//! the codec preserves what the client sent.

use vstd::prelude::*;

use vstd::string::StringSliceAdditionalSpecFns;

use crate::bytes_util::bytes_eq;

verus! {

/// The bytes of a URI built by [`Uri::new`]: the input, with `/` prepended
/// unless it already leads.
pub open spec fn canonical(s: Seq<u8>) -> Seq<u8> {
    if s.len() > 0 && s[0] == '/' as u8 {
        s
    } else {
        seq!['/' as u8] + s
    }
}

/// A request path.
#[derive(Debug)]
pub struct Uri {
    /// The path's bytes.
    pub inner: Vec<u8>,
}

impl View for Uri {
    type V = Seq<u8>;

    open spec fn view(&self) -> Seq<u8> {
        self.inner@
    }
}

impl Uri {
    /// Creates a new, canonicalized URI from a string reference.
    ///
    /// A canonical URI is one that starts with the prefix `/`.
    pub fn new(uri: &str) -> (u: Uri)
        ensures
            u@ == canonical(uri.spec_bytes()),
    {
        let bytes = uri.as_bytes();
        if bytes.len() > 0 && bytes[0] == '/' as u8 {
            Uri { inner: vstd::slice::slice_to_vec(bytes) }
        } else {
            let mut inner: Vec<u8> = Vec::new();
            inner.push('/' as u8);
            let mut i: usize = 0;
            while i < bytes.len()
                invariant
                    i <= bytes.len(),
                    inner@ == seq!['/' as u8] + bytes@.take(i as int),
                decreases bytes.len() - i,
            {
                inner.push(bytes[i]);
                i += 1;
                proof {
                    assert(inner@ =~= seq!['/' as u8] + bytes@.take(i as int));
                }
            }
            proof {
                assert(bytes@.take(bytes@.len() as int) =~= bytes@);
            }
            Uri { inner }
        }
    }

    /// Wraps wire bytes verbatim as a URI, canonical or not.
    pub fn from_wire(bytes: Vec<u8>) -> (u: Uri)
        ensures
            u@ == bytes@,
    {
        Uri { inner: bytes }
    }

    /// Returns the path's bytes.
    pub fn as_bytes(&self) -> (b: &[u8])
        ensures
            b@ == self@,
    {
        self.inner.as_slice()
    }
}

impl Clone for Uri {
    /// A clone holds the same path bytes.
    fn clone(&self) -> (r: Self)
        ensures
            r@ == self@,
    {
        let inner = self.inner.clone();
        proof {
            assert(inner@ =~= self.inner@);
        }
        Uri { inner }
    }
}

impl PartialEq for Uri {
    fn eq(&self, other: &Uri) -> bool {
        bytes_eq(self.inner.as_slice(), other.inner.as_slice())
    }
}

impl vstd::std_specs::cmp::PartialEqSpecImpl for Uri {
    open spec fn obeys_eq_spec() -> bool {
        true
    }

    open spec fn eq_spec(&self, other: &Uri) -> bool {
        self@ == other@
    }
}

impl Default for Uri {
    /// The default path is `/`.
    fn default() -> (u: Uri)
        ensures
            u@ == seq!['/' as u8],
    {
        let mut inner: Vec<u8> = Vec::new();
        inner.push('/' as u8);
        proof {
            assert(inner@ =~= seq!['/' as u8]);
        }
        Uri { inner }
    }
}

} // verus!
