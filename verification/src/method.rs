//! The HTTP method: a closed enumeration parsed from an exact-match token.

use vstd::prelude::*;

use crate::error::{Error, ErrorKind, InvalidMethod};

verus! {

/// An HTTP method. The recognized set is closed: a token that matches no
/// variant exactly is rejected at construction.
#[derive(Debug, Clone, Copy, PartialEq, Eq, Hash, Structural)]
pub enum Method {
    Get,
    Post,
}

/// The wire token of a method, as bytes.
pub open spec fn method_bytes(m: Method) -> Seq<u8> {
    match m {
        Method::Get => seq!['G' as u8, 'E' as u8, 'T' as u8],
        Method::Post => seq!['P' as u8, 'O' as u8, 'S' as u8, 'T' as u8],
    }
}

/// The method whose wire token is `t`, if any.
pub open spec fn spec_method_of(t: Seq<u8>) -> Option<Method> {
    if t == method_bytes(Method::Get) {
        Some(Method::Get)
    } else if t == method_bytes(Method::Post) {
        Some(Method::Post)
    } else {
        None
    }
}

impl Method {
    /// `GET`
    pub const GET: Method = Method::Get;

    /// `POST`
    pub const POST: Method = Method::Post;

    /// Returns the method's token as a string.
    pub fn as_str(&self) -> (r: &'static str)
        ensures
            r@ == method_bytes(*self).map(|_i: int, b: u8| b as char),
    {
        match self {
            Method::Get => {
                let s = "GET";
                proof {
                    reveal_strlit("GET");
                    assert(s@ =~= method_bytes(Method::Get).map(|_i: int, b: u8| b as char));
                }
                s
            },
            Method::Post => {
                let s = "POST";
                proof {
                    reveal_strlit("POST");
                    assert(s@ =~= method_bytes(Method::Post).map(|_i: int, b: u8| b as char));
                }
                s
            },
        }
    }

    /// Returns the method's wire token as bytes.
    pub fn wire_bytes(&self) -> (r: Vec<u8>)
        ensures
            r@ == method_bytes(*self),
    {
        match self {
            Method::Get => {
                let a: [u8; 3] = ['G' as u8, 'E' as u8, 'T' as u8];
                proof {
                    assert(a@ =~= method_bytes(Method::Get));
                }
                vstd::slice::slice_to_vec(a.as_slice())
            },
            Method::Post => {
                let a: [u8; 4] = ['P' as u8, 'O' as u8, 'S' as u8, 'T' as u8];
                proof {
                    assert(a@ =~= method_bytes(Method::Post));
                }
                vstd::slice::slice_to_vec(a.as_slice())
            },
        }
    }

    /// Parses a method from its exact wire token; any other token is an
    /// `InvalidMethod` error.
    pub fn from_bytes(t: &[u8]) -> (r: Result<Method, Error>)
        ensures
            match spec_method_of(t@) {
                Some(m) => r == Ok::<Method, Error>(m),
                None => r is Err && r->Err_0.kind() == ErrorKind::Method(InvalidMethod),
            },
    {
        let get_token: [u8; 3] = ['G' as u8, 'E' as u8, 'T' as u8];
        let post_token: [u8; 4] = ['P' as u8, 'O' as u8, 'S' as u8, 'T' as u8];
        proof {
            assert(get_token@ =~= method_bytes(Method::Get));
            assert(post_token@ =~= method_bytes(Method::Post));
        }
        if crate::bytes_util::bytes_eq(t, get_token.as_slice()) {
            Ok(Method::Get)
        } else if crate::bytes_util::bytes_eq(t, post_token.as_slice()) {
            Ok(Method::Post)
        } else {
            Err(Error::of_kind(ErrorKind::Method(InvalidMethod)))
        }
    }
}

impl Default for Method {
    /// The default method is `GET`.
    fn default() -> (m: Method)
        ensures
            m == Method::Get,
    {
        Method::Get
    }
}

} // verus!
