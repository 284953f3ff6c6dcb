//! The HTTP version: a closed enumeration used for display and validation.

use vstd::prelude::*;

use crate::error::{Error, ErrorKind, InvalidVersion};

verus! {

/// An HTTP version. Only two versions are recognized; no behaviour branches
/// on the variant.
#[derive(Debug, Clone, Copy, PartialEq, Eq, Hash, Structural)]
pub enum Version {
    Http11,
    Http2,
}

/// The wire token of a version, as bytes.
pub open spec fn version_bytes(v: Version) -> Seq<u8> {
    match v {
        Version::Http11 => seq![
            'H' as u8,
            'T' as u8,
            'T' as u8,
            'P' as u8,
            '/' as u8,
            '1' as u8,
            '.' as u8,
            '1' as u8,
        ],
        Version::Http2 => seq![
            'H' as u8,
            'T' as u8,
            'T' as u8,
            'P' as u8,
            '/' as u8,
            '2' as u8,
            '.' as u8,
            '0' as u8,
        ],
    }
}

/// The version whose wire token is `t`, if any.
pub open spec fn spec_version_of(t: Seq<u8>) -> Option<Version> {
    if t == version_bytes(Version::Http11) {
        Some(Version::Http11)
    } else if t == version_bytes(Version::Http2) {
        Some(Version::Http2)
    } else {
        None
    }
}

impl Version {
    /// `HTTP/1.1`
    pub const HTTP_11: Version = Version::Http11;

    /// `HTTP/2.0`
    pub const HTTP_2: Version = Version::Http2;

    /// Returns the version's token as a string.
    pub fn as_str(&self) -> (r: &'static str)
        ensures
            r@ == version_bytes(*self).map(|_i: int, b: u8| b as char),
    {
        match self {
            Version::Http11 => {
                let s = "HTTP/1.1";
                proof {
                    reveal_strlit("HTTP/1.1");
                    assert(s@ =~= version_bytes(Version::Http11).map(|_i: int, b: u8| b as char));
                }
                s
            },
            Version::Http2 => {
                let s = "HTTP/2.0";
                proof {
                    reveal_strlit("HTTP/2.0");
                    assert(s@ =~= version_bytes(Version::Http2).map(|_i: int, b: u8| b as char));
                }
                s
            },
        }
    }

    /// Returns the version's wire token as bytes.
    pub fn wire_bytes(&self) -> (r: Vec<u8>)
        ensures
            r@ == version_bytes(*self),
    {
        match self {
            Version::Http11 => {
                let a: [u8; 8] = [
                    'H' as u8,
                    'T' as u8,
                    'T' as u8,
                    'P' as u8,
                    '/' as u8,
                    '1' as u8,
                    '.' as u8,
                    '1' as u8,
                ];
                proof {
                    assert(a@ =~= version_bytes(Version::Http11));
                }
                vstd::slice::slice_to_vec(a.as_slice())
            },
            Version::Http2 => {
                let a: [u8; 8] = [
                    'H' as u8,
                    'T' as u8,
                    'T' as u8,
                    'P' as u8,
                    '/' as u8,
                    '2' as u8,
                    '.' as u8,
                    '0' as u8,
                ];
                proof {
                    assert(a@ =~= version_bytes(Version::Http2));
                }
                vstd::slice::slice_to_vec(a.as_slice())
            },
        }
    }

    /// Parses a version from its exact wire token; any other token is an
    /// `InvalidVersion` error.
    pub fn from_bytes(t: &[u8]) -> (r: Result<Version, Error>)
        ensures
            match spec_version_of(t@) {
                Some(v) => r == Ok::<Version, Error>(v),
                None => r is Err && r->Err_0.kind() == ErrorKind::Version(InvalidVersion),
            },
    {
        let v11_token: [u8; 8] = [
            'H' as u8,
            'T' as u8,
            'T' as u8,
            'P' as u8,
            '/' as u8,
            '1' as u8,
            '.' as u8,
            '1' as u8,
        ];
        let v2_token: [u8; 8] = [
            'H' as u8,
            'T' as u8,
            'T' as u8,
            'P' as u8,
            '/' as u8,
            '2' as u8,
            '.' as u8,
            '0' as u8,
        ];
        proof {
            assert(v11_token@ =~= version_bytes(Version::Http11));
            assert(v2_token@ =~= version_bytes(Version::Http2));
        }
        if crate::bytes_util::bytes_eq(t, v11_token.as_slice()) {
            Ok(Version::Http11)
        } else if crate::bytes_util::bytes_eq(t, v2_token.as_slice()) {
            Ok(Version::Http2)
        } else {
            Err(Error::of_kind(ErrorKind::Version(InvalidVersion)))
        }
    }
}

impl Default for Version {
    /// The default version is `HTTP/1.1`.
    fn default() -> (v: Version)
        ensures
            v == Version::Http11,
    {
        Version::Http11
    }
}

} // verus!
