//! The HTTP status code: a nonzero 16-bit integer paired at lookup time with
//! a canonical reason phrase from a fixed table.
//!
//! Unknown nonzero codes are constructible but have no reason phrase; the
//! serialization layer rejects them (see `codec`), so codes used by handlers
//! must come from the fixed table.

use vstd::prelude::*;

use crate::error::{Error, ErrorKind, InvalidStatusCode};

verus! {

/// An HTTP status code. The inner code is never zero.
#[derive(Debug, Clone, Copy, PartialEq, Eq, Hash, Structural)]
pub struct StatusCode {
    code: u16,
}

/// The canonical reason phrase of a status code, as bytes, if the code is in
/// the fixed table.
pub open spec fn spec_reason(num: u16) -> Option<Seq<u8>> {
    if num == 200 {
        Some(seq!['O' as u8, 'K' as u8])
    } else if num == 201 {
        Some(seq!['C' as u8, 'r' as u8, 'e' as u8, 'a' as u8, 't' as u8, 'e' as u8, 'd' as u8])
    } else if num == 404 {
        Some(
            seq![
                'N' as u8,
                'o' as u8,
                't' as u8,
                ' ' as u8,
                'F' as u8,
                'o' as u8,
                'u' as u8,
                'n' as u8,
                'd' as u8,
            ],
        )
    } else {
        None
    }
}

/// Returns the canonical reason phrase for a code in the fixed table, and
/// `None` for any other code.
pub fn canonical_reason(num: u16) -> (r: Option<&'static str>)
    ensures
        match r {
            Some(s) => spec_reason(num) == Some(s@.map(|_i: int, c: char| c as u8)),
            None => spec_reason(num) is None,
        },
{
    if num == 200 {
        let s = "OK";
        proof {
            reveal_strlit("OK");
            assert(s@.map(|_i: int, c: char| c as u8) =~= spec_reason(200)->0);
        }
        Some(s)
    } else if num == 201 {
        let s = "Created";
        proof {
            reveal_strlit("Created");
            assert(s@.map(|_i: int, c: char| c as u8) =~= spec_reason(201)->0);
        }
        Some(s)
    } else if num == 404 {
        let s = "Not Found";
        proof {
            reveal_strlit("Not Found");
            assert(s@.map(|_i: int, c: char| c as u8) =~= spec_reason(404)->0);
        }
        Some(s)
    } else {
        None
    }
}

/// Returns the canonical reason phrase for a code in the fixed table as wire
/// bytes, and `None` for any other code.
pub fn reason_wire(num: u16) -> (r: Option<Vec<u8>>)
    ensures
        match r {
            Some(v) => spec_reason(num) == Some(v@),
            None => spec_reason(num) is None,
        },
{
    if num == 200 {
        let a: [u8; 2] = ['O' as u8, 'K' as u8];
        proof {
            assert(a@ =~= spec_reason(200)->0);
        }
        Some(vstd::slice::slice_to_vec(a.as_slice()))
    } else if num == 201 {
        let a: [u8; 7] = ['C' as u8, 'r' as u8, 'e' as u8, 'a' as u8, 't' as u8, 'e' as u8,
            'd' as u8];
        proof {
            assert(a@ =~= spec_reason(201)->0);
        }
        Some(vstd::slice::slice_to_vec(a.as_slice()))
    } else if num == 404 {
        let a: [u8; 9] = ['N' as u8, 'o' as u8, 't' as u8, ' ' as u8, 'F' as u8, 'o' as u8,
            'u' as u8, 'n' as u8, 'd' as u8];
        proof {
            assert(a@ =~= spec_reason(404)->0);
        }
        Some(vstd::slice::slice_to_vec(a.as_slice()))
    } else {
        None
    }
}

impl StatusCode {
    /// The numeric code a contract speaks of.
    pub closed spec fn as_u16(&self) -> u16 {
        self.code
    }

    /// A constructed status code is never zero.
    pub open spec fn wf(&self) -> bool {
        self.as_u16() != 0
    }

    /// Returns the numeric code of the status.
    pub fn code(&self) -> (c: u16)
        ensures
            c == self.as_u16(),
    {
        self.code
    }

    /// Returns the canonical reason phrase of the status, if its code is in
    /// the fixed table.
    pub fn msg(&self) -> (r: Option<&'static str>)
        ensures
            match r {
                Some(s) => spec_reason(self.as_u16()) == Some(
                    s@.map(|_i: int, c: char| c as u8),
                ),
                None => spec_reason(self.as_u16()) is None,
            },
    {
        canonical_reason(self.code)
    }

    /// Constructs a status code from a nonzero number; zero is an
    /// `InvalidStatusCode` error.
    pub fn from_u16(num: u16) -> (r: Result<StatusCode, Error>)
        ensures
            match r {
                Ok(s) => num != 0 && s.as_u16() == num && s.wf(),
                Err(e) => num == 0 && e.kind() == ErrorKind::StatusCode(InvalidStatusCode),
            },
    {
        if num == 0 {
            Err(Error::of_kind(ErrorKind::StatusCode(InvalidStatusCode)))
        } else {
            Ok(StatusCode { code: num })
        }
    }
}

impl Default for StatusCode {
    /// The default status is `200 OK`.
    fn default() -> (s: StatusCode)
        ensures
            s.as_u16() == 200,
    {
        StatusCode { code: 200 }
    }
}

} // verus!
