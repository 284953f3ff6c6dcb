//! The wire codec: a byte buffer in, a validated request out, and a response
//! back to bytes.
//!
//! Decoding reads one request-line, header lines until a bare CRLF, and a
//! body of exactly Content-Length bytes. The specification functions below
//! state the whole decode as a function of the input bytes; `decode_request`
//! is proved against it.

use vstd::prelude::*;

use crate::bytes_util::{
    bytes_eq, find_byte, first_occ, lemma_first_occ, lemma_first_occ_is, parse_dec_usize,
    spec_parse_dec,
};
use crate::error::{
    Error, ErrorKind, InvalidBody, InvalidHeaderName, InvalidMethod, InvalidStatusCode,
    InvalidUri, InvalidVersion,
};
use crate::body::Body;
use crate::header::name::{
    header_name_bytes, lemma_name_bytes_roundtrip, lemma_name_bytes_wf, spec_header_name_of,
    HeaderName,
};
use crate::header::HeaderMap;
use crate::method::{method_bytes, spec_method_of, Method};
use crate::request::{Parts, Request};
use crate::response::Response;
use crate::status::{reason_wire, spec_reason};
use crate::version::{spec_version_of, version_bytes, Version};

verus! {

/// The line terminator.
pub open spec fn crlf() -> Seq<u8> {
    seq![13u8, 10u8]
}

/// An ASCII whitespace byte, as trimming sees it.
pub open spec fn is_ws(b: u8) -> bool {
    b == 32 || (9 <= b && b <= 13)
}

/// `s` without its leading whitespace.
pub open spec fn trim_start(s: Seq<u8>) -> Seq<u8>
    decreases s.len(),
{
    if s.len() > 0 && is_ws(s[0]) {
        trim_start(s.drop_first())
    } else {
        s
    }
}

/// `s` without its trailing whitespace.
pub open spec fn trim_end(s: Seq<u8>) -> Seq<u8>
    decreases s.len(),
{
    if s.len() > 0 && is_ws(s.last()) {
        trim_end(s.drop_last())
    } else {
        s
    }
}

/// `s` without leading and trailing whitespace.
pub open spec fn trim_bytes(s: Seq<u8>) -> Seq<u8> {
    trim_end(trim_start(s))
}

/// The first line of `s` — everything up to and including the first line
/// feed, or all of `s` if it holds none — and what follows it.
pub open spec fn spec_first_line(s: Seq<u8>) -> (Seq<u8>, Seq<u8>) {
    let i = first_occ(s, 10);
    if i >= 0 {
        (s.take(i + 1), s.skip(i + 1))
    } else {
        (s, Seq::<u8>::empty())
    }
}

/// The index of the first `": "` in `s`, or a negative number if none.
pub open spec fn first_colon_space(s: Seq<u8>) -> int
    decreases s.len(),
{
    if s.len() < 2 {
        -1
    } else if s[0] == 58 && s[1] == 32 {
        0
    } else {
        let r = first_colon_space(s.drop_first());
        if r < 0 {
            -1
        } else {
            r + 1
        }
    }
}

/// What `first_colon_space` returns: the least index where `": "` starts, or
/// a negative number when it occurs nowhere.
pub proof fn lemma_first_colon_space(s: Seq<u8>)
    ensures
        first_colon_space(s) < 0 ==> forall|k: int|
            0 <= k < s.len() - 1 ==> !((#[trigger] s[k]) == 58 && s[k + 1] == 32),
        first_colon_space(s) >= 0 ==> {
            &&& first_colon_space(s) + 1 < s.len()
            &&& s[first_colon_space(s)] == 58
            &&& s[first_colon_space(s) + 1] == 32
            &&& forall|k: int|
                0 <= k < first_colon_space(s) ==> !((#[trigger] s[k]) == 58 && s[k + 1] == 32)
        },
    decreases s.len(),
{
    if s.len() >= 2 && !(s[0] == 58 && s[1] == 32) {
        lemma_first_colon_space(s.drop_first());
        let r = first_colon_space(s.drop_first());
        if r < 0 {
            assert forall|k: int| 0 <= k < s.len() - 1 implies !((#[trigger] s[k]) == 58 && s[k
                + 1] == 32) by {
                if k > 0 {
                    assert(!(s.drop_first()[k - 1] == 58 && s.drop_first()[k] == 32));
                }
            }
        } else {
            assert(s[r + 1] == s.drop_first()[r]);
            assert(s[r + 2] == s.drop_first()[r + 1]);
            assert forall|k: int| 0 <= k < r + 1 implies !((#[trigger] s[k]) == 58 && s[k + 1]
                == 32) by {
                if k > 0 {
                    assert(!(s.drop_first()[k - 1] == 58 && s.drop_first()[k] == 32));
                }
            }
        }
    }
}

/// The first three space-separated tokens of a (trimmed) request line, as
/// splitting on single spaces yields them.
pub open spec fn split3(line: Seq<u8>) -> (Seq<u8>, Option<Seq<u8>>, Option<Seq<u8>>) {
    let i0 = first_occ(line, 32);
    if i0 < 0 {
        (line, None::<Seq<u8>>, None::<Seq<u8>>)
    } else {
        let t0 = line.take(i0);
        let r1 = line.skip(i0 + 1);
        let i1 = first_occ(r1, 32);
        if i1 < 0 {
            (t0, Some(r1), None::<Seq<u8>>)
        } else {
            let t1 = r1.take(i1);
            let r2 = r1.skip(i1 + 1);
            let i2 = first_occ(r2, 32);
            let t2 = if i2 < 0 {
                r2
            } else {
                r2.take(i2)
            };
            (t0, Some(t1), Some(t2))
        }
    }
}

/// The header section of `s`: the raw `(name, value)` pairs in line order,
/// the last raw Content-Length value, and the bytes after the bare CRLF that
/// ends the section.
///
/// A section that ends before its bare CRLF, or a line without `": "`, is a
/// terminal error.
pub open spec fn spec_header_section(s: Seq<u8>) -> Result<
    (Seq<(Seq<u8>, Seq<u8>)>, Option<Seq<u8>>, Seq<u8>),
    ErrorKind,
>
    decreases s.len(),
    via spec_header_section_decreases
{
    let i = first_occ(s, 10);
    if i < 0 {
        Err(ErrorKind::Header(InvalidHeaderName))
    } else {
        let line = s.take(i + 1);
        let rest = s.skip(i + 1);
        if line == crlf() {
            Ok((Seq::<(Seq<u8>, Seq<u8>)>::empty(), None::<Seq<u8>>, rest))
        } else {
            let t = trim_bytes(line);
            let j = first_colon_space(t);
            if j < 0 {
                Err(ErrorKind::Header(InvalidHeaderName))
            } else {
                let nm = t.take(j);
                let val = t.skip(j + 2);
                match spec_header_section(rest) {
                    Err(k) => Err(k),
                    Ok(tail) => Ok(
                        (
                            seq![(nm, val)] + tail.0,
                            if tail.1 is Some {
                                tail.1
                            } else if nm == header_name_bytes(HeaderName::ContentLength) {
                                Some(val)
                            } else {
                                None::<Seq<u8>>
                            },
                            tail.2,
                        ),
                    ),
                }
            }
        }
    }
}

#[via_fn]
proof fn spec_header_section_decreases(s: Seq<u8>) {
    crate::bytes_util::lemma_first_occ(s, 10);
}

/// Every entry's name is in the recognized table.
pub open spec fn all_names_recognized(pairs: Seq<(Seq<u8>, Seq<u8>)>) -> bool {
    forall|i: int| 0 <= i < pairs.len() ==> spec_header_name_of((#[trigger] pairs[i]).0) is Some
}

/// The header map raw entries denote: inserted first to last, recognized
/// names only, later values overwriting earlier ones.
pub open spec fn insert_all(
    m: Map<HeaderName, Seq<u8>>,
    pairs: Seq<(Seq<u8>, Seq<u8>)>,
) -> Map<HeaderName, Seq<u8>>
    decreases pairs.len(),
{
    if pairs.len() == 0 {
        m
    } else {
        let p = pairs[0];
        let m1 = if spec_header_name_of(p.0) is Some {
            m.insert(spec_header_name_of(p.0)->0, p.1)
        } else {
            m
        };
        insert_all(m1, pairs.drop_first())
    }
}

/// Inserting one more entry after a batch is inserting the batch, then it.
#[verifier::rlimit(50)]
pub proof fn lemma_insert_all_push(
    m: Map<HeaderName, Seq<u8>>,
    pairs: Seq<(Seq<u8>, Seq<u8>)>,
    p: (Seq<u8>, Seq<u8>),
)
    ensures
        insert_all(m, pairs.push(p)) == if spec_header_name_of(p.0) is Some {
            insert_all(m, pairs).insert(spec_header_name_of(p.0)->0, p.1)
        } else {
            insert_all(m, pairs)
        },
    decreases pairs.len(),
{
    if pairs.len() == 0 {
        assert(pairs.push(p)[0] == p);
        assert(pairs.push(p).drop_first() =~= Seq::<(Seq<u8>, Seq<u8>)>::empty());
        let m1 = if spec_header_name_of(p.0) is Some {
            m.insert(spec_header_name_of(p.0)->0, p.1)
        } else {
            m
        };
        assert(insert_all(m, pairs.push(p)) == insert_all(m1, pairs.push(p).drop_first()));
        assert(insert_all(m1, Seq::<(Seq<u8>, Seq<u8>)>::empty()) == m1);
    } else {
        assert(pairs.push(p)[0] == pairs[0]);
        assert(pairs.push(p).drop_first() =~= pairs.drop_first().push(p));
        let m1 = if spec_header_name_of(pairs[0].0) is Some {
            m.insert(spec_header_name_of(pairs[0].0)->0, pairs[0].1)
        } else {
            m
        };
        lemma_insert_all_push(m1, pairs.drop_first(), p);
    }
}

/// A decoded request, as the decoding specification describes it.
pub struct DecodedRequest {
    /// The parsed method.
    pub method: Method,
    /// The URI token, verbatim.
    pub uri: Seq<u8>,
    /// The parsed version.
    pub version: Version,
    /// The header map the header lines denote.
    pub headers: Map<HeaderName, Seq<u8>>,
    /// Exactly Content-Length body bytes.
    pub body: Seq<u8>,
}

/// What decoding a byte buffer yields: the decoded request, or the error
/// decoding reports.
///
/// The error precedence mirrors the staging of the decoder: a missing URI or
/// version token ends decoding at the request line; an unreadable header
/// section, an unparseable Content-Length, and a body shorter than declared
/// are terminal; then the first recorded conversion failure — method, then
/// version, then header names — is reported; otherwise the request stands.
pub open spec fn spec_decode(input: Seq<u8>) -> Result<DecodedRequest, ErrorKind> {
    let fl = spec_first_line(input);
    let t = trim_bytes(fl.0);
    let toks = split3(t);
    if toks.1 is None {
        Err(ErrorKind::Uri(InvalidUri))
    } else if toks.2 is None {
        Err(ErrorKind::Version(InvalidVersion))
    } else {
        match spec_header_section(fl.1) {
            Err(k) => Err(k),
            Ok(sect) => {
                let cl_raw = if sect.1 is Some {
                    sect.1->0
                } else {
                    seq!['0' as u8]
                };
                match spec_parse_dec(cl_raw) {
                    None => Err(ErrorKind::Header(InvalidHeaderName)),
                    Some(n) => if n > usize::MAX as nat {
                        Err(ErrorKind::Header(InvalidHeaderName))
                    } else if sect.2.len() < n {
                        Err(ErrorKind::Body(InvalidBody))
                    } else if spec_method_of(toks.0) is None {
                        Err(ErrorKind::Method(InvalidMethod))
                    } else if spec_version_of(toks.2->0) is None {
                        Err(ErrorKind::Version(InvalidVersion))
                    } else if !all_names_recognized(sect.0) {
                        Err(ErrorKind::Header(InvalidHeaderName))
                    } else {
                        Ok(
                            DecodedRequest {
                                method: spec_method_of(toks.0)->0,
                                uri: toks.1->0,
                                version: spec_version_of(toks.2->0)->0,
                                headers: insert_all(Map::<HeaderName, Seq<u8>>::empty(), sect.0),
                                body: sect.2.take(n as int),
                            },
                        )
                    },
                }
            },
        }
    }
}

/// Tests a byte for ASCII whitespace.
fn ws(b: u8) -> (r: bool)
    ensures
        r == is_ws(b),
{
    b == 32 || (b >= 9 && b <= 13)
}

/// Trims whitespace: the bounds of `trim_bytes(s@)` within `s`.
fn trim_range(s: &[u8]) -> (r: (usize, usize))
    ensures
        r.0 <= r.1 <= s@.len(),
        s@.subrange(r.0 as int, r.1 as int) == trim_bytes(s@),
{
    proof {
        assert(s@.skip(0) =~= s@);
    }
    let mut lo: usize = 0;
    while lo < s.len() && ws(s[lo])
        invariant
            lo <= s@.len(),
            trim_start(s@) == trim_start(s@.skip(lo as int)),
        decreases s@.len() - lo,
    {
        proof {
            assert(s@.skip(lo as int).drop_first() =~= s@.skip(lo as int + 1));
        }
        lo += 1;
    }
    proof {
        if lo == s@.len() {
            assert(s@.skip(lo as int) =~= Seq::<u8>::empty());
        }
        assert(trim_start(s@) == s@.skip(lo as int));
        assert(s@.skip(lo as int) =~= s@.subrange(lo as int, s@.len() as int));
    }
    let mut hi: usize = s.len();
    while hi > lo && ws(s[hi - 1])
        invariant
            lo <= hi <= s@.len(),
            trim_end(s@.skip(lo as int)) == trim_end(s@.subrange(lo as int, hi as int)),
        decreases hi,
    {
        proof {
            assert(s@.subrange(lo as int, hi as int).drop_last() =~= s@.subrange(
                lo as int,
                hi as int - 1,
            ));
            assert(s@.subrange(lo as int, hi as int).last() == s@[hi - 1]);
        }
        hi -= 1;
    }
    proof {
        if hi == lo {
            assert(s@.subrange(lo as int, hi as int) =~= Seq::<u8>::empty());
        }
        assert(trim_end(s@.subrange(lo as int, hi as int)) == s@.subrange(lo as int, hi as int));
    }
    (lo, hi)
}

/// Finds the first `": "` in `s`.
fn find_colon_space(s: &[u8]) -> (r: Option<usize>)
    ensures
        match r {
            Some(j) => j as int == first_colon_space(s@),
            None => first_colon_space(s@) < 0,
        },
{
    proof {
        lemma_first_colon_space(s@);
    }
    if s.len() < 2 {
        return None;
    }
    let mut j: usize = 0;
    while j < s.len() - 1
        invariant
            s@.len() >= 2,
            j <= s@.len() - 1,
            forall|k: int| 0 <= k < j ==> !((#[trigger] s@[k]) == 58 && s@[k + 1] == 32),
        decreases s@.len() - j,
    {
        if s[j] == 58 && s[j + 1] == 32 {
            proof {
                lemma_first_colon_space(s@);
                assert(first_colon_space(s@) == j as int) by {
                    if first_colon_space(s@) < 0 {
                        assert(!(s@[j as int] == 58 && s@[j as int + 1] == 32));
                    } else if first_colon_space(s@) < j as int {
                        assert(!(s@[first_colon_space(s@)] == 58 && s@[first_colon_space(s@) + 1]
                            == 32));
                    } else if first_colon_space(s@) > j as int {
                        assert(!(s@[j as int] == 58 && s@[j as int + 1] == 32));
                    }
                }
            }
            return Some(j);
        }
        j += 1;
    }
    proof {
        lemma_first_colon_space(s@);
        if first_colon_space(s@) >= 0 {
            let f = first_colon_space(s@);
            assert(!(s@[f] == 58 && s@[f + 1] == 32));
        }
    }
    None
}

/// Splits a trimmed request line into its first three space-separated
/// tokens, if they stand there.
fn split_request_line<'a>(t: &'a [u8]) -> (r: (&'a [u8], Option<&'a [u8]>, Option<&'a [u8]>))
    ensures
        ({
            let sp = split3(t@);
            &&& r.0@ == sp.0
            &&& match (r.1, sp.1) {
                (Some(a), Some(b)) => a@ == b,
                (None, None) => true,
                _ => false,
            }
            &&& match (r.2, sp.2) {
                (Some(a), Some(b)) => a@ == b,
                (None, None) => true,
                _ => false,
            }
        }),
{
    let n = t.len();
    match find_byte(t, 0, 32) {
        None => {
            proof {
                lemma_first_occ(t@, 32);
            }
            (t, None, None)
        },
        Some(i0) => {
            proof {
                lemma_first_occ_is(t@, 32, i0 as int);
            }
            let tok0 = vstd::slice::slice_subrange(t, 0, i0);
            let r1 = vstd::slice::slice_subrange(t, i0 + 1, n);
            proof {
                assert(r1@ =~= t@.skip(i0 as int + 1));
            }
            match find_byte(t, i0 + 1, 32) {
                None => {
                    proof {
                        lemma_first_occ(r1@, 32);
                        if first_occ(r1@, 32) >= 0 {
                            let f = first_occ(r1@, 32);
                            assert(t@[i0 + 1 + f] == r1@[f]);
                        }
                    }
                    (tok0, Some(r1), None)
                },
                Some(i1a) => {
                    let i1 = i1a - (i0 + 1);
                    proof {
                        assert forall|k: int| 0 <= k < i1 implies r1@[k] != 32 by {
                            assert(r1@[k] == t@[i0 + 1 + k]);
                        }
                        lemma_first_occ_is(r1@, 32, i1 as int);
                    }
                    let tok1 = vstd::slice::slice_subrange(t, i0 + 1, i1a);
                    proof {
                        assert(tok1@ =~= r1@.take(i1 as int));
                    }
                    let r2 = vstd::slice::slice_subrange(t, i1a + 1, n);
                    proof {
                        assert(r2@ =~= r1@.skip(i1 as int + 1));
                    }
                    match find_byte(t, i1a + 1, 32) {
                        None => {
                            proof {
                                lemma_first_occ(r2@, 32);
                                if first_occ(r2@, 32) >= 0 {
                                    let f = first_occ(r2@, 32);
                                    assert(t@[i1a + 1 + f] == r2@[f]);
                                }
                            }
                            (tok0, Some(tok1), Some(r2))
                        },
                        Some(i2a) => {
                            let i2 = i2a - (i1a + 1);
                            proof {
                                assert forall|k: int| 0 <= k < i2 implies r2@[k] != 32 by {
                                    assert(r2@[k] == t@[i1a + 1 + k]);
                                }
                                lemma_first_occ_is(r2@, 32, i2 as int);
                            }
                            let tok2 = vstd::slice::slice_subrange(t, i1a + 1, i2a);
                            proof {
                                assert(tok2@ =~= r2@.take(i2 as int));
                            }
                            (tok0, Some(tok1), Some(tok2))
                        },
                    }
                },
            }
        },
    }
}

/// The bytes an `Option<Vec<u8>>` holds.
pub open spec fn opt_bytes(c: Option<Vec<u8>>) -> Option<Seq<u8>> {
    match c {
        Some(v) => Some(v@),
        None => None::<Seq<u8>>,
    }
}

/// How a builder stands after the request line and a batch of raw header
/// lines: the first recorded failure, or the head with every header applied.
pub open spec fn builder_after_headers(
    st1: Result<Parts, Error>,
    pairs: Seq<(Seq<u8>, Seq<u8>)>,
    st: Result<Parts, Error>,
) -> bool {
    match st1 {
        Err(e) => st == Err::<Parts, Error>(e),
        Ok(p1) => if all_names_recognized(pairs) {
            &&& st is Ok
            &&& st->Ok_0.method == p1.method
            &&& st->Ok_0.uri == p1.uri
            &&& st->Ok_0.version == p1.version
            &&& st->Ok_0.headers.as_map() == insert_all(p1.headers.as_map(), pairs)
        } else {
            st is Err && st->Err_0.kind() == ErrorKind::Header(InvalidHeaderName)
        },
    }
}

/// Decodes one request from its complete wire bytes.
///
/// The result is exactly what `spec_decode` says of the input: the request
/// with that method, URI, version, header map and body, or the error of the
/// kind `spec_decode` reports.
#[verifier::rlimit(100)]
#[verifier::loop_isolation(false)]
pub fn decode_request(input: &[u8]) -> (r: Result<Request<Vec<u8>>, Error>)
    ensures
        match spec_decode(input@) {
            Ok(d) => {
                &&& r is Ok
                &&& r->Ok_0.wf()
                &&& r->Ok_0.spec_head().method == d.method
                &&& r->Ok_0.spec_head().uri@ == d.uri
                &&& r->Ok_0.spec_head().version == d.version
                &&& r->Ok_0.spec_head().headers.as_map() == d.headers
                &&& r->Ok_0.spec_body()@ == d.body
            },
            Err(k) => r is Err && r->Err_0.kind() == k,
        },
{
    let n = input.len();
    let ghost fl = spec_first_line(input@);

    // Request line.
    let line_end: usize = match find_byte(input, 0, 10) {
        Some(i) => {
            proof {
                lemma_first_occ_is(input@, 10, i as int);
            }
            i + 1
        },
        None => {
            proof {
                lemma_first_occ(input@, 10);
                assert(input@.take(n as int) =~= input@);
                assert(input@.skip(n as int) =~= Seq::<u8>::empty());
            }
            n
        },
    };
    let line = vstd::slice::slice_subrange(input, 0, line_end);
    let rest0 = vstd::slice::slice_subrange(input, line_end, n);
    proof {
        assert(line@ == fl.0);
        assert(rest0@ == fl.1);
    }

    let tr = trim_range(line);
    let t = vstd::slice::slice_subrange(line, tr.0, tr.1);
    let toks = split_request_line(t);
    let ghost sp = split3(trim_bytes(fl.0));

    let tok1 = match toks.1 {
        Some(u) => u,
        None => {
            return Err(Error::of_kind(ErrorKind::Uri(InvalidUri)));
        },
    };
    let tok2 = match toks.2 {
        Some(v) => v,
        None => {
            return Err(Error::of_kind(ErrorKind::Version(InvalidVersion)));
        },
    };

    let b0 = Request::builder().with_method(toks.0).with_uri(tok1).with_version(tok2);
    let ghost st1 = b0.state();
    proof {
        assert(builder_after_headers(st1, Seq::<(Seq<u8>, Seq<u8>)>::empty(), st1));
    }

    // Header section.
    let mut b = b0;
    let mut cl: Option<Vec<u8>> = None;
    let mut cursor: usize = 0;
    let mut finished: bool = false;
    let ghost mut done: Seq<(Seq<u8>, Seq<u8>)> = Seq::<(Seq<u8>, Seq<u8>)>::empty();
    let rlen = rest0.len();
    proof {
        assert(rest0@.skip(0) =~= rest0@);
        assert(done + spec_header_section(rest0@)->Ok_0.0 =~= spec_header_section(
            rest0@,
        )->Ok_0.0) by {
            if spec_header_section(rest0@) is Ok {
            }
        }
    }
    while !finished
        invariant
            cursor <= rest0@.len(),
            b.wf(),
            builder_after_headers(st1, done, b.state()),
            !finished ==> match spec_header_section(rest0@.skip(cursor as int)) {
                Ok(tail) => {
                    &&& spec_header_section(rest0@) is Ok
                    &&& spec_header_section(rest0@)->Ok_0.0 == done + tail.0
                    &&& spec_header_section(rest0@)->Ok_0.1 == if tail.1 is Some {
                        tail.1
                    } else {
                        opt_bytes(cl)
                    }
                    &&& spec_header_section(rest0@)->Ok_0.2 == tail.2
                },
                Err(k) => spec_header_section(rest0@) == Err::<
                    (Seq<(Seq<u8>, Seq<u8>)>, Option<Seq<u8>>, Seq<u8>),
                    ErrorKind,
                >(k),
            },
            finished ==> {
                &&& spec_header_section(rest0@) is Ok
                &&& spec_header_section(rest0@)->Ok_0.0 == done
                &&& spec_header_section(rest0@)->Ok_0.1 == opt_bytes(cl)
                &&& spec_header_section(rest0@)->Ok_0.2 == rest0@.skip(cursor as int)
            },
        decreases rest0@.len() - cursor + (if finished {
            0int
        } else {
            1int
        }),
    {
        let ghost scur = rest0@.skip(cursor as int);
        let i = match find_byte(rest0, cursor, 10) {
            Some(i) => i,
            None => {
                proof {
                    lemma_first_occ(scur, 10);
                    if first_occ(scur, 10) >= 0 {
                        let f = first_occ(scur, 10);
                        assert(rest0@[cursor + f] == scur[f]);
                    }
                    assert(spec_header_section(scur) == Err::<
                        (Seq<(Seq<u8>, Seq<u8>)>, Option<Seq<u8>>, Seq<u8>),
                        ErrorKind,
                    >(ErrorKind::Header(InvalidHeaderName)));
                    assert(spec_decode(input@) == Err::<DecodedRequest, ErrorKind>(
                        ErrorKind::Header(InvalidHeaderName),
                    ));
                }
                return Err(Error::of_kind(ErrorKind::Header(InvalidHeaderName)));
            },
        };
        proof {
            assert forall|k: int| 0 <= k < i - cursor implies scur[k] != 10 by {
                assert(scur[k] == rest0@[cursor + k]);
            }
            lemma_first_occ_is(scur, 10, i - cursor);
        }
        let line_hi = i + 1;
        let hline = vstd::slice::slice_subrange(rest0, cursor, line_hi);
        proof {
            assert(hline@ =~= scur.take(i - cursor + 1));
            assert(rest0@.skip(line_hi as int) =~= scur.skip(i - cursor + 1));
        }
        if hline.len() == 2 && hline[0] == 13 && hline[1] == 10 {
            proof {
                assert(hline@ =~= crlf());
                assert(done + Seq::<(Seq<u8>, Seq<u8>)>::empty() =~= done);
            }
            cursor = line_hi;
            finished = true;
        } else {
            proof {
                if hline@.len() == 2 {
                    assert(hline@ != crlf()) by {
                        if hline@ == crlf() {
                            assert(hline@[0] == 13 && hline@[1] == 10);
                        }
                    }
                } else {
                    assert(hline@ != crlf()) by {
                        assert(hline@.len() != crlf().len());
                    }
                }
            }
            let htr = trim_range(hline);
            let ht = vstd::slice::slice_subrange(hline, htr.0, htr.1);
            let j = match find_colon_space(ht) {
                Some(j) => j,
                None => {
                    proof {
                        assert(spec_header_section(scur) == Err::<
                            (Seq<(Seq<u8>, Seq<u8>)>, Option<Seq<u8>>, Seq<u8>),
                            ErrorKind,
                        >(ErrorKind::Header(InvalidHeaderName)));
                        assert(spec_decode(input@) == Err::<DecodedRequest, ErrorKind>(
                            ErrorKind::Header(InvalidHeaderName),
                        ));
                    }
                    return Err(Error::of_kind(ErrorKind::Header(InvalidHeaderName)));
                },
            };
            proof {
                lemma_first_colon_space(ht@);
            }
            let nm = vstd::slice::slice_subrange(ht, 0, j);
            let val = vstd::slice::slice_subrange(ht, j + 2, ht.len());
            let ghost nm_s = trim_bytes(hline@).take(j as int);
            let ghost val_s = trim_bytes(hline@).skip(j as int + 2);
            proof {
                assert(nm@ == nm_s);
                assert(val@ == val_s);
            }
            let cl_name: [u8; 14] = [
                'C' as u8,
                'o' as u8,
                'n' as u8,
                't' as u8,
                'e' as u8,
                'n' as u8,
                't' as u8,
                '-' as u8,
                'L' as u8,
                'e' as u8,
                'n' as u8,
                'g' as u8,
                't' as u8,
                'h' as u8,
            ];
            proof {
                assert(cl_name@ =~= header_name_bytes(HeaderName::ContentLength));
            }
            if bytes_eq(nm, cl_name.as_slice()) {
                cl = Some(vstd::slice::slice_to_vec(val));
            }
            let ghost st_before = b.state();
            b = b.with_header(nm, val);
            proof {
                // The builder stands as if the whole extended batch applied.
                if st1 is Ok {
                    let p1 = st1->Ok_0;
                    lemma_insert_all_push(p1.headers.as_map(), done, (nm_s, val_s));
                    if all_names_recognized(done) {
                        if spec_header_name_of(nm_s) is Some {
                            assert(all_names_recognized(done.push((nm_s, val_s)))) by {
                                assert forall|k: int|
                                    0 <= k < done.push((nm_s, val_s)).len() implies
                                    spec_header_name_of(
                                    (#[trigger] done.push((nm_s, val_s))[k]).0,
                                ) is Some by {
                                    if k < done.len() {
                                        assert(done.push((nm_s, val_s))[k] == done[k]);
                                    }
                                }
                            }
                        } else {
                            assert(!all_names_recognized(done.push((nm_s, val_s)))) by {
                                assert(done.push((nm_s, val_s))[done.len() as int] == (
                                    nm_s,
                                    val_s,
                                ));
                            }
                        }
                    } else {
                        let bad = choose|k: int|
                            0 <= k < done.len() && !(spec_header_name_of(
                                (#[trigger] done[k]).0,
                            ) is Some);
                        assert(!all_names_recognized(done.push((nm_s, val_s)))) by {
                            assert(done.push((nm_s, val_s))[bad] == done[bad]);
                        }
                    }
                }
                done = done.push((nm_s, val_s));
            }
            cursor = line_hi;
        }
    }

    // Content-Length and body.
    let ghost whole = spec_header_section(rest0@)->Ok_0;
    let ghost cl_raw = if whole.1 is Some {
        whole.1->0
    } else {
        seq!['0' as u8]
    };
    let body_len: usize = match &cl {
        Some(v) => {
            match parse_dec_usize(v.as_slice()) {
                Some(m) => m,
                None => {
                    return Err(Error::of_kind(ErrorKind::Header(InvalidHeaderName)));
                },
            }
        },
        None => {
            proof {
                assert(cl_raw =~= seq!['0' as u8]);
                assert(cl_raw.len() == 1 && cl_raw[0] == 48);
                assert(crate::bytes_util::all_dec_digits(cl_raw)) by {
                    assert forall|k: int|
                        0 <= k < cl_raw.len() implies crate::bytes_util::is_dec_digit(
                        #[trigger] cl_raw[k],
                    ) by {
                        assert(cl_raw[k] == 48);
                    }
                }
                assert(cl_raw.drop_last() =~= Seq::<u8>::empty());
                assert(crate::bytes_util::dec_value(Seq::<u8>::empty()) == 0);
                assert(crate::bytes_util::dec_value(cl_raw) == 0);
                assert(spec_parse_dec(cl_raw) == Some(0nat));
            }
            0
        },
    };
    proof {
        assert(spec_parse_dec(cl_raw) == Some(body_len as nat));
    }

    let avail = rlen - cursor;
    if avail < body_len {
        return Err(Error::of_kind(ErrorKind::Body(InvalidBody)));
    }
    let body_slice = vstd::slice::slice_subrange(rest0, cursor, cursor + body_len);
    proof {
        assert(body_slice@ =~= rest0@.skip(cursor as int).take(body_len as int));
    }
    let body = vstd::slice::slice_to_vec(body_slice);
    b.with_body(body)
}

/// One rendered header line: `Name: Value` and CRLF.
pub open spec fn render_header(e: (HeaderName, Seq<u8>)) -> Seq<u8> {
    header_name_bytes(e.0) + seq![58u8, 32u8] + e.1 + crlf()
}

/// The rendered header lines, in storage order.
pub open spec fn render_headers(entries: Seq<(HeaderName, Seq<u8>)>) -> Seq<u8>
    decreases entries.len(),
{
    if entries.len() == 0 {
        Seq::<u8>::empty()
    } else {
        render_headers(entries.drop_last()) + render_header(entries.last())
    }
}

/// The wire bytes of a response: status line, header lines in storage order,
/// a blank line, and the body. Meaningful only for a status in the fixed
/// reason-phrase table.
pub open spec fn spec_encode_response(
    v: Version,
    code: u16,
    entries: Seq<(HeaderName, Seq<u8>)>,
    body: Seq<u8>,
) -> Seq<u8> {
    version_bytes(v) + seq![32u8] + crate::bytes_util::spec_dec_bytes(code as nat) + seq![32u8]
        + spec_reason(code)->0 + crlf() + render_headers(entries) + crlf() + body
}

/// The wire bytes of a request: request line, header lines in storage order,
/// a blank line, and the body.
pub open spec fn spec_encode_request(
    m: Method,
    uri: Seq<u8>,
    v: Version,
    entries: Seq<(HeaderName, Seq<u8>)>,
    body: Seq<u8>,
) -> Seq<u8> {
    method_bytes(m) + seq![32u8] + uri + seq![32u8] + version_bytes(v) + crlf() + render_headers(
        entries,
    ) + crlf() + body
}

/// Renders a header map's entries in storage order, appended to `out`.
#[verifier::loop_isolation(false)]
fn render_header_lines(out: &mut Vec<u8>, hm: &HeaderMap)
    ensures
        final(out)@ == old(out)@ + render_headers(hm.entries_seq()),
{
    let n = hm.len();
    let mut i: usize = 0;
    proof {
        assert(hm.entries_seq().take(0) =~= Seq::<(HeaderName, Seq<u8>)>::empty());
        assert(out@ =~= old(out)@ + render_headers(hm.entries_seq().take(0)));
    }
    while i < n
        invariant
            i <= n,
            out@ == old(out)@ + render_headers(hm.entries_seq().take(i as int)),
        decreases n - i,
    {
        let e = hm.entry_at(i);
        let nb = e.0.wire_bytes();
        out.extend_from_slice(nb.as_slice());
        out.push(58);
        out.push(32);
        let vb = e.1.as_slice();
        out.extend_from_slice(vb);
        out.push(13);
        out.push(10);
        proof {
            let es = hm.entries_seq();
            assert(es.take(i + 1).drop_last() =~= es.take(i as int));
            assert(es.take(i + 1).last() == es[i as int]);
            assert(out@ =~= old(out)@ + render_headers(es.take(i + 1)));
        }
        i += 1;
    }
    proof {
        assert(hm.entries_seq().take(n as int) =~= hm.entries_seq());
    }
}

/// Renders a response to its wire bytes.
///
/// A status outside the fixed reason-phrase table has no status line to
/// write; it is rejected as `InvalidStatusCode`, never rendered.
pub fn encode_response<T: Body>(resp: &Response<T>) -> (r: Result<Vec<u8>, Error>)
    requires
        resp.wf(),
    ensures
        match spec_reason(resp.spec_head().status.as_u16()) {
            Some(_) => {
                &&& r is Ok
                &&& r->Ok_0@ == spec_encode_response(
                    resp.spec_head().version,
                    resp.spec_head().status.as_u16(),
                    resp.spec_head().headers.entries_seq(),
                    resp.spec_body().byte_view(),
                )
            },
            None => r is Err && r->Err_0.kind() == ErrorKind::StatusCode(InvalidStatusCode),
        },
{
    let code = resp.status().code();
    let reason = match reason_wire(code) {
        Some(v) => v,
        None => {
            return Err(Error::of_kind(ErrorKind::StatusCode(InvalidStatusCode)));
        },
    };
    let mut out: Vec<u8> = Vec::new();
    let vb = resp.version().wire_bytes();
    out.extend_from_slice(vb.as_slice());
    out.push(32);
    let dec = crate::bytes_util::u64_to_dec(code as u64);
    out.extend_from_slice(dec.as_slice());
    out.push(32);
    out.extend_from_slice(reason.as_slice());
    out.push(13);
    out.push(10);
    render_header_lines(&mut out, resp.headers());
    out.push(13);
    out.push(10);
    let body = resp.body().to_bytes();
    out.extend_from_slice(body.as_slice());
    proof {
        assert(out@ =~= spec_encode_response(
            resp.spec_head().version,
            resp.spec_head().status.as_u16(),
            resp.spec_head().headers.entries_seq(),
            resp.spec_body().byte_view(),
        ));
    }
    Ok(out)
}

/// Renders a request to its wire bytes.
pub fn encode_request<T: Body>(req: &Request<T>) -> (out: Vec<u8>)
    requires
        req.wf(),
    ensures
        out@ == spec_encode_request(
            req.spec_head().method,
            req.spec_head().uri@,
            req.spec_head().version,
            req.spec_head().headers.entries_seq(),
            req.spec_body().byte_view(),
        ),
{
    let mut out: Vec<u8> = Vec::new();
    let mb = req.method().wire_bytes();
    out.extend_from_slice(mb.as_slice());
    out.push(32);
    out.extend_from_slice(req.uri().as_bytes());
    out.push(32);
    let vb = req.version().wire_bytes();
    out.extend_from_slice(vb.as_slice());
    out.push(13);
    out.push(10);
    render_header_lines(&mut out, req.headers());
    out.push(13);
    out.push(10);
    let body = req.body().to_bytes();
    out.extend_from_slice(body.as_slice());
    proof {
        assert(out@ =~= spec_encode_request(
            req.spec_head().method,
            req.spec_head().uri@,
            req.spec_head().version,
            req.spec_head().headers.entries_seq(),
            req.spec_body().byte_view(),
        ));
    }
    out
}

/// The index of the first CRLF CRLF in `s`, or a negative number if none.
pub open spec fn first_blank(s: Seq<u8>) -> int
    decreases s.len(),
{
    if s.len() < 4 {
        -1
    } else if s[0] == 13 && s[1] == 10 && s[2] == 13 && s[3] == 10 {
        0
    } else {
        let r = first_blank(s.drop_first());
        if r < 0 {
            -1
        } else {
            r + 1
        }
    }
}

/// What `first_blank` returns: the least index where CRLF CRLF starts, or a
/// negative number when it occurs nowhere.
pub proof fn lemma_first_blank(s: Seq<u8>)
    ensures
        first_blank(s) < 0 ==> forall|k: int|
            0 <= k < s.len() - 3 ==> !((#[trigger] s[k]) == 13 && s[k + 1] == 10 && s[k + 2] == 13
                && s[k + 3] == 10),
        first_blank(s) >= 0 ==> {
            &&& first_blank(s) + 3 < s.len()
            &&& s[first_blank(s)] == 13
            &&& s[first_blank(s) + 1] == 10
            &&& s[first_blank(s) + 2] == 13
            &&& s[first_blank(s) + 3] == 10
            &&& forall|k: int|
                0 <= k < first_blank(s) ==> !((#[trigger] s[k]) == 13 && s[k + 1] == 10 && s[k + 2]
                    == 13 && s[k + 3] == 10)
        },
    decreases s.len(),
{
    if s.len() >= 4 && !(s[0] == 13 && s[1] == 10 && s[2] == 13 && s[3] == 10) {
        lemma_first_blank(s.drop_first());
        let r = first_blank(s.drop_first());
        if r < 0 {
            assert forall|k: int| 0 <= k < s.len() - 3 implies !((#[trigger] s[k]) == 13 && s[k
                + 1] == 10 && s[k + 2] == 13 && s[k + 3] == 10) by {
                if k > 0 {
                    assert(!(s.drop_first()[k - 1] == 13 && s.drop_first()[k] == 10
                        && s.drop_first()[k + 1] == 13 && s.drop_first()[k + 2] == 10));
                }
            }
        } else {
            assert(s[r + 1] == s.drop_first()[r]);
            assert(s[r + 2] == s.drop_first()[r + 1]);
            assert(s[r + 3] == s.drop_first()[r + 2]);
            assert(s[r + 4] == s.drop_first()[r + 3]);
            assert forall|k: int| 0 <= k < r + 1 implies !((#[trigger] s[k]) == 13 && s[k + 1]
                == 10 && s[k + 2] == 13 && s[k + 3] == 10) by {
                if k > 0 {
                    assert(!(s.drop_first()[k - 1] == 13 && s.drop_first()[k] == 10
                        && s.drop_first()[k + 1] == 13 && s.drop_first()[k + 2] == 10));
                }
            }
        }
    }
}

/// Finds the first blank line — the first CRLF CRLF — in a buffer.
///
/// An embedding application reads from its connection until this returns
/// `Some`, then hands the buffer to `decode_request`; the index is where the
/// terminating blank line starts.
pub fn find_blank_line(bytes: &[u8]) -> (r: Option<usize>)
    ensures
        match r {
            Some(i) => i as int == first_blank(bytes@),
            None => first_blank(bytes@) < 0,
        },
{
    proof {
        lemma_first_blank(bytes@);
    }
    if bytes.len() < 4 {
        return None;
    }
    let mut k: usize = 0;
    while k < bytes.len() - 3
        invariant
            bytes@.len() >= 4,
            k <= bytes@.len() - 3,
            forall|j: int|
                0 <= j < k ==> !((#[trigger] bytes@[j]) == 13 && bytes@[j + 1] == 10 && bytes@[j
                    + 2] == 13 && bytes@[j + 3] == 10),
        decreases bytes@.len() - k,
    {
        if bytes[k] == 13 && bytes[k + 1] == 10 && bytes[k + 2] == 13 && bytes[k + 3] == 10 {
            proof {
                lemma_first_blank(bytes@);
                let f = first_blank(bytes@);
                if f < 0 {
                    assert(!(bytes@[k as int] == 13 && bytes@[k as int + 1] == 10 && bytes@[k as int
                        + 2] == 13 && bytes@[k as int + 3] == 10));
                } else if f < k as int {
                    assert(!(bytes@[f] == 13 && bytes@[f + 1] == 10 && bytes@[f + 2] == 13
                        && bytes@[f + 3] == 10));
                } else if f > k as int {
                    assert(!(bytes@[k as int] == 13 && bytes@[k as int + 1] == 10 && bytes@[k as int
                        + 2] == 13 && bytes@[k as int + 3] == 10));
                }
            }
            return Some(k);
        }
        k += 1;
    }
    proof {
        lemma_first_blank(bytes@);
        if first_blank(bytes@) >= 0 {
            let f = first_blank(bytes@);
            assert(!(bytes@[f] == 13 && bytes@[f + 1] == 10 && bytes@[f + 2] == 13 && bytes@[f + 3]
                == 10));
        }
    }
    None
}

/// A header value that survives the wire unchanged: nonempty, free of line
/// feeds, and not ending in whitespace, so that the line it stands on trims
/// back to itself.
pub open spec fn value_ok(v: Seq<u8>) -> bool {
    &&& v.len() > 0
    &&& !is_ws(v.last())
    &&& forall|j: int| 0 <= j < v.len() ==> (#[trigger] v[j]) != 10
}

/// Header entries as the wire carries them: raw name bytes and value.
pub open spec fn raw_entries(entries: Seq<(HeaderName, Seq<u8>)>) -> Seq<(Seq<u8>, Seq<u8>)> {
    entries.map(|_i: int, e: (HeaderName, Seq<u8>)| (header_name_bytes(e.0), e.1))
}

/// The value of the last Content-Length entry, if one stands in the list.
pub open spec fn last_cl(entries: Seq<(HeaderName, Seq<u8>)>) -> Option<Seq<u8>>
    decreases entries.len(),
{
    if entries.len() == 0 {
        None::<Seq<u8>>
    } else {
        let t = last_cl(entries.drop_first());
        if t is Some {
            t
        } else if entries[0].0 == HeaderName::ContentLength {
            Some(entries[0].1)
        } else {
            None::<Seq<u8>>
        }
    }
}

/// A method's wire token is nonempty and free of whitespace.
proof fn lemma_method_bytes_wf(m: Method)
    ensures
        method_bytes(m).len() > 0,
        !is_ws(method_bytes(m).last()),
        forall|i: int| 0 <= i < method_bytes(m).len() ==> !is_ws(#[trigger] method_bytes(m)[i]),
    decreases m,
{
    match m {
        Method::Get => {},
        Method::Post => {},
    }
}

/// A version's wire token is nonempty and free of whitespace, and the two
/// tokens name distinct versions.
proof fn lemma_version_bytes_wf(v: Version)
    ensures
        version_bytes(v).len() > 0,
        !is_ws(version_bytes(v).last()),
        forall|i: int| 0 <= i < version_bytes(v).len() ==> !is_ws(#[trigger] version_bytes(v)[i]),
        spec_version_of(version_bytes(v)) == Some(v),
{
    match v {
        Version::Http11 => {},
        Version::Http2 => {
            assert(version_bytes(Version::Http2)[5] != version_bytes(Version::Http11)[5]);
        },
    }
}

/// A method's own wire token parses back to that method.
proof fn lemma_method_of_bytes(m: Method)
    ensures
        spec_method_of(method_bytes(m)) == Some(m),
{
    match m {
        Method::Get => {},
        Method::Post => {
            assert(method_bytes(Method::Post).len() != method_bytes(Method::Get).len());
        },
    }
}

/// Trimming a piece that starts and ends on non-whitespace and carries the
/// line terminator: the CRLF goes, the piece stays.
proof fn lemma_trim_of_line(x: Seq<u8>)
    requires
        x.len() > 0,
        !is_ws(x[0]),
        !is_ws(x.last()),
    ensures
        trim_bytes(x + crlf()) == x,
{
    let line = x + crlf();
    assert(line[0] == x[0]);
    assert(trim_start(line) == line);
    assert(line.last() == 10 && is_ws(10));
    assert(line.drop_last() =~= x + seq![13u8]);
    assert((x + seq![13u8]).last() == 13 && is_ws(13));
    assert((x + seq![13u8]).drop_last() =~= x);
    assert(trim_end(line) == trim_end(x + seq![13u8]));
    assert(trim_end(x + seq![13u8]) == trim_end(x));
    assert(trim_end(x) == x);
}

/// Peeling the first rendered header off the front of the rendered section.
proof fn lemma_render_headers_first(entries: Seq<(HeaderName, Seq<u8>)>)
    requires
        entries.len() > 0,
    ensures
        render_headers(entries) == render_header(entries[0]) + render_headers(entries.drop_first()),
    decreases entries.len(),
{
    if entries.len() == 1 {
        assert(entries.drop_last() =~= Seq::<(HeaderName, Seq<u8>)>::empty());
        assert(entries.drop_first() =~= Seq::<(HeaderName, Seq<u8>)>::empty());
        assert(entries.last() == entries[0]);
        assert(render_headers(entries) == render_headers(Seq::<(HeaderName, Seq<u8>)>::empty())
            + render_header(entries[0]));
        assert(Seq::<u8>::empty() + render_header(entries[0]) =~= render_header(entries[0]));
        assert(render_header(entries[0]) + Seq::<u8>::empty() =~= render_header(entries[0]));
    } else {
        lemma_render_headers_first(entries.drop_last());
        assert(entries.drop_last()[0] == entries[0]);
        assert(entries.drop_last().drop_first() =~= entries.drop_first().drop_last());
        assert(entries.drop_first().last() == entries.last());
        assert(render_headers(entries) == render_headers(entries.drop_last()) + render_header(
            entries.last(),
        ));
        assert(render_headers(entries.drop_last()) == render_header(entries[0]) + render_headers(
            entries.drop_first().drop_last(),
        ));
        assert(render_headers(entries.drop_first()) == render_headers(
            entries.drop_first().drop_last(),
        ) + render_header(entries.drop_first().last()));
        assert((render_header(entries[0]) + render_headers(entries.drop_first().drop_last()))
            + render_header(entries.last()) =~= render_header(entries[0]) + (render_headers(
            entries.drop_first().drop_last(),
        ) + render_header(entries.last())));
    }
}

/// Parsing the rendered header section recovers the entries, the last
/// Content-Length value, and the body.
#[verifier::rlimit(100)]
proof fn lemma_section_of_render(entries: Seq<(HeaderName, Seq<u8>)>, body: Seq<u8>)
    requires
        forall|i: int| 0 <= i < entries.len() ==> value_ok((#[trigger] entries[i]).1),
    ensures
        spec_header_section(render_headers(entries) + crlf() + body) == Ok::<
            (Seq<(Seq<u8>, Seq<u8>)>, Option<Seq<u8>>, Seq<u8>),
            ErrorKind,
        >((raw_entries(entries), last_cl(entries), body)),
    decreases entries.len(),
{
    if entries.len() == 0 {
        let w = render_headers(entries) + crlf() + body;
        assert(w =~= crlf() + body);
        assert(w[0] == 13 && w[1] == 10);
        lemma_first_occ_is(w, 10, 1);
        assert(w.take(2) =~= crlf());
        assert(w.skip(2) =~= body);
        assert(raw_entries(entries) =~= Seq::<(Seq<u8>, Seq<u8>)>::empty());
    } else {
        let e0 = entries[0];
        let nb = header_name_bytes(e0.0);
        let v = e0.1;
        let rest_r = render_headers(entries.drop_first()) + crlf() + body;
        let w = render_headers(entries) + crlf() + body;
        lemma_render_headers_first(entries);
        assert(w =~= render_header(e0) + rest_r);
        lemma_name_bytes_wf(e0.0);
        assert(value_ok(v));
        let x = nb + seq![58u8, 32u8] + v;
        assert(render_header(e0) =~= x + crlf());
        let ln = x.len() + 2;
        // The first line feed ends the first rendered line.
        assert(w[ln - 1] == 10);
        assert forall|k: int| 0 <= k < ln - 1 implies w[k] != 10 by {
            if k < nb.len() {
                assert(w[k] == nb[k]);
            } else if k == nb.len() {
                assert(w[k] == 58);
            } else if k == nb.len() + 1 {
                assert(w[k] == 32);
            } else if k < x.len() {
                assert(w[k] == v[k - nb.len() - 2]);
            } else {
                assert(w[k] == 13);
            }
        }
        lemma_first_occ_is(w, 10, ln - 1);
        assert(w.take(ln as int) =~= x + crlf());
        assert(w.skip(ln as int) =~= rest_r);
        // The line is not the bare CRLF.
        assert(x.len() >= 3);
        assert(w.take(ln as int).len() != crlf().len());
        assert(w.take(ln as int) != crlf());
        // Trimming strips exactly the CRLF.
        assert(x[0] == nb[0] && !is_ws(x[0]));
        assert(x.last() == v.last() && !is_ws(x.last()));
        lemma_trim_of_line(x);
        // The line splits at the ": " the renderer wrote.
        let t = x;
        lemma_first_colon_space(t);
        let f = first_colon_space(t);
        assert(t[nb.len() as int] == 58 && t[nb.len() as int + 1] == 32);
        assert(nb.len() + 3 <= t.len());
        if f < 0 {
            assert(!(t[nb.len() as int] == 58 && t[nb.len() as int + 1] == 32));
            assert(false);
        }
        if f < nb.len() {
            assert(t[f] == nb[f]);
            assert(nb[f] != 58);
            assert(false);
        }
        if f > nb.len() {
            assert(!(t[nb.len() as int] == 58 && t[nb.len() as int + 1] == 32));
            assert(false);
        }
        assert(f == nb.len());
        assert(t.take(f) =~= nb);
        assert(t.skip(f + 2) =~= v);
        // The tail parses by induction.
        assert forall|i: int| 0 <= i < entries.drop_first().len() implies value_ok(
            (#[trigger] entries.drop_first()[i]).1,
        ) by {
            assert(entries.drop_first()[i] == entries[i + 1]);
        }
        lemma_section_of_render(entries.drop_first(), body);
        // The combined result is the raw entries, last Content-Length, body.
        assert(raw_entries(entries) =~= seq![(nb, v)] + raw_entries(entries.drop_first())) by {
            assert forall|i: int| 0 <= i < entries.len() implies #[trigger] raw_entries(entries)[i]
                == (seq![(nb, v)] + raw_entries(entries.drop_first()))[i] by {
                if i > 0 {
                    assert(entries.drop_first()[i - 1] == entries[i]);
                    assert(raw_entries(entries.drop_first())[i - 1] == (
                    header_name_bytes(entries[i].0),
                    entries[i].1,
                    ));
                }
            }
        }
        lemma_name_bytes_roundtrip(e0.0);
        lemma_name_bytes_roundtrip(HeaderName::ContentLength);
        if nb == header_name_bytes(HeaderName::ContentLength) {
            assert(spec_header_name_of(nb) == Some(e0.0));
            assert(spec_header_name_of(header_name_bytes(HeaderName::ContentLength)) == Some(
                HeaderName::ContentLength,
            ));
            assert(e0.0 == HeaderName::ContentLength);
        }
    }
}

/// Encoding a request and decoding the wire bytes on the other side
/// reconstructs the same method, URI, version and body: the codec round
/// trip.
///
/// The URI must be free of whitespace, each header value must survive its
/// line (`value_ok`), and the Content-Length header must hold the decimal
/// numeral of the body's byte length — absent only when the body is empty —
/// exactly what the response builder records for its own bodies.
#[verifier::rlimit(100)]
pub proof fn lemma_request_roundtrip(
    m: Method,
    uri: Seq<u8>,
    v: Version,
    entries: Seq<(HeaderName, Seq<u8>)>,
    body: Seq<u8>,
)
    requires
        forall|i: int| 0 <= i < uri.len() ==> !is_ws(#[trigger] uri[i]),
        forall|i: int| 0 <= i < entries.len() ==> value_ok((#[trigger] entries[i]).1),
        match last_cl(entries) {
            Some(c) => c == crate::bytes_util::spec_dec_bytes(body.len()),
            None => body.len() == 0,
        },
        body.len() <= usize::MAX,
    ensures
        spec_decode(spec_encode_request(m, uri, v, entries, body)) is Ok,
        spec_decode(spec_encode_request(m, uri, v, entries, body))->Ok_0.method == m,
        spec_decode(spec_encode_request(m, uri, v, entries, body))->Ok_0.uri == uri,
        spec_decode(spec_encode_request(m, uri, v, entries, body))->Ok_0.version == v,
        spec_decode(spec_encode_request(m, uri, v, entries, body))->Ok_0.body == body,
{
    let w = spec_encode_request(m, uri, v, entries, body);
    let mb = method_bytes(m);
    let vb = version_bytes(v);
    let core = mb + seq![32u8] + uri + seq![32u8] + vb;
    let rest0 = render_headers(entries) + crlf() + body;
    lemma_method_bytes_wf(m);
    lemma_version_bytes_wf(v);
    assert(w =~= core + crlf() + rest0);
    // The first line feed ends the request line.
    let ln = core.len() + 2;
    assert(w[ln - 1] == 10);
    assert forall|k: int| 0 <= k < ln - 1 implies w[k] != 10 by {
        if k < mb.len() {
            assert(w[k] == mb[k] && !is_ws(mb[k]));
        } else if k == mb.len() {
            assert(w[k] == 32);
        } else if k < mb.len() + 1 + uri.len() {
            assert(w[k] == uri[k - mb.len() - 1] && !is_ws(uri[k - mb.len() - 1]));
        } else if k == mb.len() + 1 + uri.len() {
            assert(w[k] == 32);
        } else if k < core.len() {
            assert(w[k] == vb[k - mb.len() - 2 - uri.len()] && !is_ws(vb[k - mb.len() - 2
                - uri.len()]));
        } else {
            assert(w[k] == 13);
        }
    }
    lemma_first_occ_is(w, 10, ln - 1);
    let fl = spec_first_line(w);
    assert(fl.0 =~= core + crlf());
    assert(fl.1 =~= rest0);
    // The request line trims to the three tokens.
    assert(core[0] == mb[0] && !is_ws(core[0]));
    assert(core.last() == vb.last() && !is_ws(core.last()));
    lemma_trim_of_line(core);
    assert(trim_bytes(fl.0) == core);
    // Splitting finds method, URI, version.
    assert(core[mb.len() as int] == 32);
    assert forall|k: int| 0 <= k < mb.len() implies core[k] != 32 by {
        assert(core[k] == mb[k] && !is_ws(mb[k]));
    }
    lemma_first_occ_is(core, 32, mb.len() as int);
    let r1 = core.skip(mb.len() as int + 1);
    assert(core.take(mb.len() as int) =~= mb);
    assert(r1 =~= uri + seq![32u8] + vb);
    assert(r1[uri.len() as int] == 32);
    assert forall|k: int| 0 <= k < uri.len() implies r1[k] != 32 by {
        assert(r1[k] == uri[k] && !is_ws(uri[k]));
    }
    lemma_first_occ_is(r1, 32, uri.len() as int);
    let r2 = r1.skip(uri.len() as int + 1);
    assert(r1.take(uri.len() as int) =~= uri);
    assert(r2 =~= vb);
    lemma_first_occ(r2, 32);
    if first_occ(r2, 32) >= 0 {
        let f = first_occ(r2, 32);
        assert(r2[f] == 32 && is_ws(vb[f]));
        assert(false);
    }
    let toks = split3(core);
    assert(toks.0 == mb && toks.1 == Some(uri) && toks.2 == Some(vb));
    lemma_method_of_bytes(m);
    // The header section parses back to the entries.
    lemma_section_of_render(entries, body);
    let sect = spec_header_section(rest0)->Ok_0;
    assert(sect.0 == raw_entries(entries) && sect.1 == last_cl(entries) && sect.2 == body);
    // Content-Length denotes the body length.
    match last_cl(entries) {
        Some(c) => {
            crate::bytes_util::lemma_dec_roundtrip(body.len());
            assert(spec_parse_dec(c) == Some(body.len()));
        },
        None => {
            let zero = seq!['0' as u8];
            assert(zero.len() == 1 && zero[0] == 48);
            assert(crate::bytes_util::all_dec_digits(zero)) by {
                assert forall|k: int|
                    0 <= k < zero.len() implies crate::bytes_util::is_dec_digit(
                    #[trigger] zero[k],
                ) by {
                    assert(zero[k] == 48);
                }
            }
            assert(zero.drop_last() =~= Seq::<u8>::empty());
            assert(crate::bytes_util::dec_value(Seq::<u8>::empty()) == 0);
            assert(crate::bytes_util::dec_value(zero) == 0);
            assert(spec_parse_dec(zero) == Some(0nat));
        },
    }
    assert(sect.2.take(body.len() as int) =~= body);
    // Every rendered name is recognized.
    assert(all_names_recognized(raw_entries(entries))) by {
        assert forall|i: int|
            0 <= i < raw_entries(entries).len() implies spec_header_name_of(
            (#[trigger] raw_entries(entries)[i]).0,
        ) is Some by {
            assert(raw_entries(entries)[i].0 == header_name_bytes(entries[i].0));
            lemma_name_bytes_roundtrip(entries[i].0);
        }
    }
}

} // verus!
