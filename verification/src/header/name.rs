//! The header name: a closed enumeration over a fixed, case-sensitive set of
//! recognized names. Bytes that match no table entry exactly fail conversion;
//! there are no wildcard or custom headers.

use vstd::prelude::*;

use crate::bytes_util::bytes_eq;

verus! {

/// A recognized HTTP header name.
#[derive(Debug, Clone, Copy, PartialEq, Eq, Hash, Structural)]
pub enum HeaderName {
    AIM,
    Accept,
    AcceptCharset,
    AcceptDatetime,
    AcceptEncoding,
    AcceptLanguage,
    AcceptCtrlSeqMethod,
    AcceptCtrlSeqHeaders,
    Authorization,
    CacheControl,
    Connection,
    ContentEncoding,
    ContentLength,
    ContentMD5,
    ContentType,
    Cookie,
    CfVisitor,
    CfConnectionIp,
    CfIpcountry,
    CfRay,
    Date,
    Expect,
    Forwarded,
    From,
    Host,
    HTTP2Settings,
    IfMatch,
    IfModifiedSince,
    IfNoneMatch,
    IfRange,
    IfUnmodifiedSince,
    MaxForwards,
    Origin,
    Pragma,
    Prefer,
    ProxyAuthorization,
    Priority,
    Range,
    Referer,
    TE,
    Trailer,
    TransferEncoding,
    UserAgent,
    Upgrade,
    Via,
    SecChUa,
    SecChUaMobile,
    SecChUaPlatform,
    SecFetchDest,
    SecFetchMode,
    SecFetchSite,
    SecFetchUser,
    SecGpc,
    UpgradeInsecureRequests,
    XForwardedProto,
    XHTTPS,
}

/// The wire bytes of a recognized header name.
pub open spec fn header_name_bytes(n: HeaderName) -> Seq<u8> {
    match n {
        HeaderName::AIM => seq!['A' as u8, '-' as u8, 'I' as u8, 'M' as u8],
        HeaderName::Accept => seq!['A' as u8, 'c' as u8, 'c' as u8, 'e' as u8, 'p' as u8, 't' as u8],
        HeaderName::AcceptCharset => seq!['A' as u8, 'c' as u8, 'c' as u8, 'e' as u8, 'p' as u8, 't' as u8, '-' as u8, 'C' as u8, 'h' as u8, 'a' as u8, 'r' as u8, 's' as u8, 'e' as u8, 't' as u8],
        HeaderName::AcceptDatetime => seq!['A' as u8, 'c' as u8, 'c' as u8, 'e' as u8, 'p' as u8, 't' as u8, '-' as u8, 'D' as u8, 'a' as u8, 't' as u8, 'e' as u8, 't' as u8, 'i' as u8, 'm' as u8, 'e' as u8],
        HeaderName::AcceptEncoding => seq!['A' as u8, 'c' as u8, 'c' as u8, 'e' as u8, 'p' as u8, 't' as u8, '-' as u8, 'E' as u8, 'n' as u8, 'c' as u8, 'o' as u8, 'd' as u8, 'i' as u8, 'n' as u8, 'g' as u8],
        HeaderName::AcceptLanguage => seq!['A' as u8, 'c' as u8, 'c' as u8, 'e' as u8, 'p' as u8, 't' as u8, '-' as u8, 'L' as u8, 'a' as u8, 'n' as u8, 'g' as u8, 'u' as u8, 'a' as u8, 'g' as u8, 'e' as u8],
        HeaderName::AcceptCtrlSeqMethod => seq!['A' as u8, 'c' as u8, 'c' as u8, 'e' as u8, 'p' as u8, 't' as u8, '-' as u8, 'C' as u8, 'o' as u8, 'n' as u8, 't' as u8, 'r' as u8, 'o' as u8, 'l' as u8, '-' as u8, 'S' as u8, 'e' as u8, 'q' as u8, 'u' as u8, 'e' as u8, 'n' as u8, 'c' as u8, 'e' as u8, '-' as u8, 'M' as u8, 'e' as u8, 't' as u8, 'h' as u8, 'o' as u8, 'd' as u8],
        HeaderName::AcceptCtrlSeqHeaders => seq!['A' as u8, 'c' as u8, 'c' as u8, 'e' as u8, 'p' as u8, 't' as u8, '-' as u8, 'C' as u8, 'o' as u8, 'n' as u8, 't' as u8, 'r' as u8, 'o' as u8, 'l' as u8, '-' as u8, 'S' as u8, 'e' as u8, 'q' as u8, 'u' as u8, 'e' as u8, 'n' as u8, 'c' as u8, 'e' as u8, '-' as u8, 'H' as u8, 'e' as u8, 'a' as u8, 'd' as u8, 'e' as u8, 'r' as u8, 's' as u8],
        HeaderName::Authorization => seq!['A' as u8, 'u' as u8, 't' as u8, 'h' as u8, 'o' as u8, 'r' as u8, 'e' as u8, 'z' as u8, 'a' as u8, 't' as u8, 'i' as u8, 'o' as u8, 'n' as u8],
        HeaderName::CacheControl => seq!['C' as u8, 'a' as u8, 'c' as u8, 'h' as u8, 'e' as u8, '-' as u8, 'C' as u8, 'o' as u8, 'n' as u8, 't' as u8, 'r' as u8, 'o' as u8, 'l' as u8],
        HeaderName::Connection => seq!['C' as u8, 'o' as u8, 'n' as u8, 'n' as u8, 'e' as u8, 'c' as u8, 't' as u8, 'i' as u8, 'o' as u8, 'n' as u8],
        HeaderName::ContentEncoding => seq!['C' as u8, 'o' as u8, 'n' as u8, 't' as u8, 'e' as u8, 'n' as u8, 't' as u8, '-' as u8, 'E' as u8, 'n' as u8, 'c' as u8, 'o' as u8, 'd' as u8, 'i' as u8, 'n' as u8, 'g' as u8],
        HeaderName::ContentLength => seq!['C' as u8, 'o' as u8, 'n' as u8, 't' as u8, 'e' as u8, 'n' as u8, 't' as u8, '-' as u8, 'L' as u8, 'e' as u8, 'n' as u8, 'g' as u8, 't' as u8, 'h' as u8],
        HeaderName::ContentMD5 => seq!['C' as u8, 'o' as u8, 'n' as u8, 't' as u8, 'e' as u8, 'n' as u8, 't' as u8, '-' as u8, 'M' as u8, 'D' as u8, '5' as u8],
        HeaderName::ContentType => seq!['C' as u8, 'o' as u8, 'n' as u8, 't' as u8, 'e' as u8, 'n' as u8, 't' as u8, '-' as u8, 'T' as u8, 'y' as u8, 'p' as u8, 'e' as u8],
        HeaderName::Cookie => seq!['C' as u8, 'o' as u8, 'o' as u8, 'k' as u8, 'i' as u8, 'e' as u8],
        HeaderName::CfVisitor => seq!['C' as u8, 'f' as u8, '-' as u8, 'V' as u8, 'i' as u8, 's' as u8, 'i' as u8, 't' as u8, 'o' as u8, 'r' as u8],
        HeaderName::CfConnectionIp => seq!['C' as u8, 'f' as u8, '-' as u8, 'C' as u8, 'o' as u8, 'n' as u8, 'n' as u8, 'e' as u8, 'c' as u8, 't' as u8, 'i' as u8, 'o' as u8, 'n' as u8, '-' as u8, 'I' as u8, 'p' as u8],
        HeaderName::CfIpcountry => seq!['C' as u8, 'f' as u8, '-' as u8, 'I' as u8, 'p' as u8, 'c' as u8, 'o' as u8, 'u' as u8, 'n' as u8, 't' as u8, 'r' as u8, 'y' as u8],
        HeaderName::CfRay => seq!['C' as u8, 'f' as u8, '-' as u8, 'R' as u8, 'a' as u8, 'y' as u8],
        HeaderName::Date => seq!['D' as u8, 'a' as u8, 't' as u8, 'e' as u8],
        HeaderName::Expect => seq!['E' as u8, 'x' as u8, 'p' as u8, 'e' as u8, 'c' as u8, 't' as u8],
        HeaderName::Forwarded => seq!['F' as u8, 'o' as u8, 'r' as u8, 'w' as u8, 'a' as u8, 'r' as u8, 'd' as u8, 'e' as u8, 'd' as u8],
        HeaderName::From => seq!['F' as u8, 'r' as u8, 'o' as u8, 'm' as u8],
        HeaderName::Host => seq!['H' as u8, 'o' as u8, 's' as u8, 't' as u8],
        HeaderName::HTTP2Settings => seq!['H' as u8, 'T' as u8, 'T' as u8, 'P' as u8, '2' as u8, '-' as u8, 'S' as u8, 'e' as u8, 't' as u8, 't' as u8, 'i' as u8, 'n' as u8, 'g' as u8, 's' as u8],
        HeaderName::IfMatch => seq!['I' as u8, 'f' as u8, '-' as u8, 'M' as u8, 'a' as u8, 't' as u8, 'c' as u8, 'h' as u8],
        HeaderName::IfModifiedSince => seq!['I' as u8, 'f' as u8, '-' as u8, 'M' as u8, 'o' as u8, 'd' as u8, 'i' as u8, 'f' as u8, 'i' as u8, 'e' as u8, 'd' as u8, '-' as u8, 'S' as u8, 'i' as u8, 'n' as u8, 'c' as u8, 'e' as u8],
        HeaderName::IfNoneMatch => seq!['I' as u8, 'f' as u8, '-' as u8, 'N' as u8, 'o' as u8, 'n' as u8, 'e' as u8, '-' as u8, 'M' as u8, 'a' as u8, 't' as u8, 'c' as u8, 'h' as u8],
        HeaderName::IfRange => seq!['I' as u8, 'f' as u8, '-' as u8, 'R' as u8, 'a' as u8, 'n' as u8, 'g' as u8, 'e' as u8],
        HeaderName::IfUnmodifiedSince => seq!['I' as u8, 'f' as u8, '-' as u8, 'U' as u8, 'n' as u8, 'm' as u8, 'o' as u8, 'd' as u8, 'i' as u8, 'f' as u8, 'i' as u8, 'e' as u8, 'd' as u8, '-' as u8, 'S' as u8, 'i' as u8, 'n' as u8, 'c' as u8, 'e' as u8],
        HeaderName::MaxForwards => seq!['M' as u8, 'a' as u8, 'x' as u8, '-' as u8, 'F' as u8, 'o' as u8, 'r' as u8, 'w' as u8, 'a' as u8, 'r' as u8, 'd' as u8, 's' as u8],
        HeaderName::Origin => seq!['O' as u8, 'r' as u8, 'i' as u8, 'g' as u8, 'i' as u8, 'n' as u8],
        HeaderName::Pragma => seq!['P' as u8, 'r' as u8, 'a' as u8, 'g' as u8, 'm' as u8, 'a' as u8],
        HeaderName::Prefer => seq!['P' as u8, 'r' as u8, 'e' as u8, 'f' as u8, 'e' as u8, 'r' as u8],
        HeaderName::ProxyAuthorization => seq!['P' as u8, 'r' as u8, 'o' as u8, 'x' as u8, 'y' as u8, '-' as u8, 'A' as u8, 'u' as u8, 't' as u8, 'h' as u8, 'o' as u8, 'r' as u8, 'i' as u8, 'z' as u8, 'a' as u8, 't' as u8, 'i' as u8, 'o' as u8, 'n' as u8],
        HeaderName::Priority => seq!['P' as u8, 'r' as u8, 'i' as u8, 'o' as u8, 'r' as u8, 'i' as u8, 't' as u8, 'y' as u8],
        HeaderName::Range => seq!['R' as u8, 'a' as u8, 'n' as u8, 'g' as u8, 'e' as u8],
        HeaderName::Referer => seq!['R' as u8, 'e' as u8, 'f' as u8, 'e' as u8, 'r' as u8, 'e' as u8, 'r' as u8],
        HeaderName::TE => seq!['T' as u8, 'E' as u8],
        HeaderName::Trailer => seq!['T' as u8, 'r' as u8, 'a' as u8, 'i' as u8, 'l' as u8, 'e' as u8, 'r' as u8],
        HeaderName::TransferEncoding => seq!['T' as u8, 'r' as u8, 'a' as u8, 'n' as u8, 's' as u8, 'f' as u8, 'e' as u8, 'r' as u8, '-' as u8, 'E' as u8, 'n' as u8, 'c' as u8, 'o' as u8, 'd' as u8, 'i' as u8, 'n' as u8, 'g' as u8],
        HeaderName::UserAgent => seq!['U' as u8, 's' as u8, 'e' as u8, 'r' as u8, '-' as u8, 'A' as u8, 'g' as u8, 'e' as u8, 'n' as u8, 't' as u8],
        HeaderName::Upgrade => seq!['U' as u8, 'p' as u8, 'g' as u8, 'r' as u8, 'a' as u8, 'd' as u8, 'e' as u8],
        HeaderName::Via => seq!['V' as u8, 'i' as u8, 'a' as u8],
        HeaderName::SecChUa => seq!['s' as u8, 'e' as u8, 'c' as u8, '-' as u8, 'c' as u8, 'h' as u8, '-' as u8, 'u' as u8, 'a' as u8],
        HeaderName::SecChUaMobile => seq!['s' as u8, 'e' as u8, 'c' as u8, '-' as u8, 'c' as u8, 'h' as u8, '-' as u8, 'u' as u8, 'a' as u8, '-' as u8, 'm' as u8, 'o' as u8, 'b' as u8, 'i' as u8, 'l' as u8, 'e' as u8],
        HeaderName::SecChUaPlatform => seq!['s' as u8, 'e' as u8, 'c' as u8, '-' as u8, 'c' as u8, 'h' as u8, '-' as u8, 'u' as u8, 'a' as u8, '-' as u8, 'p' as u8, 'l' as u8, 'a' as u8, 't' as u8, 'f' as u8, 'o' as u8, 'r' as u8, 'm' as u8],
        HeaderName::SecFetchDest => seq!['S' as u8, 'e' as u8, 'c' as u8, '-' as u8, 'F' as u8, 'e' as u8, 't' as u8, 'c' as u8, 'h' as u8, '-' as u8, 'D' as u8, 'e' as u8, 's' as u8, 't' as u8],
        HeaderName::SecFetchMode => seq!['S' as u8, 'e' as u8, 'c' as u8, '-' as u8, 'F' as u8, 'e' as u8, 't' as u8, 'c' as u8, 'h' as u8, '-' as u8, 'M' as u8, 'o' as u8, 'd' as u8, 'e' as u8],
        HeaderName::SecFetchSite => seq!['S' as u8, 'e' as u8, 'c' as u8, '-' as u8, 'F' as u8, 'e' as u8, 't' as u8, 'c' as u8, 'h' as u8, '-' as u8, 'S' as u8, 'i' as u8, 't' as u8, 'e' as u8],
        HeaderName::SecFetchUser => seq!['S' as u8, 'e' as u8, 'c' as u8, '-' as u8, 'F' as u8, 'e' as u8, 't' as u8, 'c' as u8, 'h' as u8, '-' as u8, 'U' as u8, 's' as u8, 'e' as u8, 'r' as u8],
        HeaderName::SecGpc => seq!['S' as u8, 'e' as u8, 'c' as u8, '-' as u8, 'G' as u8, 'P' as u8, 'C' as u8],
        HeaderName::UpgradeInsecureRequests => seq!['U' as u8, 'p' as u8, 'g' as u8, 'r' as u8, 'a' as u8, 'd' as u8, 'e' as u8, '-' as u8, 'I' as u8, 'n' as u8, 's' as u8, 'e' as u8, 'c' as u8, 'u' as u8, 'r' as u8, 'e' as u8, '-' as u8, 'R' as u8, 'e' as u8, 'q' as u8, 'u' as u8, 'e' as u8, 's' as u8, 't' as u8, 's' as u8],
        HeaderName::XForwardedProto => seq!['X' as u8, '-' as u8, 'F' as u8, 'o' as u8, 'r' as u8, 'w' as u8, 'a' as u8, 'r' as u8, 'd' as u8, 'e' as u8, 'd' as u8, '-' as u8, 'P' as u8, 'r' as u8, 'o' as u8, 't' as u8, 'o' as u8],
        HeaderName::XHTTPS => seq!['X' as u8, '-' as u8, 'H' as u8, 'T' as u8, 'T' as u8, 'P' as u8, 'S' as u8],
    }
}

/// The recognized header name whose wire bytes are `t`, if any.
pub open spec fn spec_header_name_of(t: Seq<u8>) -> Option<HeaderName> {
    if t == header_name_bytes(HeaderName::AIM) {
        Some(HeaderName::AIM)
    } else if t == header_name_bytes(HeaderName::Accept) {
        Some(HeaderName::Accept)
    } else if t == header_name_bytes(HeaderName::AcceptCharset) {
        Some(HeaderName::AcceptCharset)
    } else if t == header_name_bytes(HeaderName::AcceptDatetime) {
        Some(HeaderName::AcceptDatetime)
    } else if t == header_name_bytes(HeaderName::AcceptEncoding) {
        Some(HeaderName::AcceptEncoding)
    } else if t == header_name_bytes(HeaderName::AcceptLanguage) {
        Some(HeaderName::AcceptLanguage)
    } else if t == header_name_bytes(HeaderName::AcceptCtrlSeqMethod) {
        Some(HeaderName::AcceptCtrlSeqMethod)
    } else if t == header_name_bytes(HeaderName::AcceptCtrlSeqHeaders) {
        Some(HeaderName::AcceptCtrlSeqHeaders)
    } else if t == header_name_bytes(HeaderName::Authorization) {
        Some(HeaderName::Authorization)
    } else if t == header_name_bytes(HeaderName::CacheControl) {
        Some(HeaderName::CacheControl)
    } else if t == header_name_bytes(HeaderName::Connection) {
        Some(HeaderName::Connection)
    } else if t == header_name_bytes(HeaderName::ContentEncoding) {
        Some(HeaderName::ContentEncoding)
    } else if t == header_name_bytes(HeaderName::ContentLength) {
        Some(HeaderName::ContentLength)
    } else if t == header_name_bytes(HeaderName::ContentMD5) {
        Some(HeaderName::ContentMD5)
    } else if t == header_name_bytes(HeaderName::ContentType) {
        Some(HeaderName::ContentType)
    } else if t == header_name_bytes(HeaderName::Cookie) {
        Some(HeaderName::Cookie)
    } else if t == header_name_bytes(HeaderName::CfVisitor) {
        Some(HeaderName::CfVisitor)
    } else if t == header_name_bytes(HeaderName::CfConnectionIp) {
        Some(HeaderName::CfConnectionIp)
    } else if t == header_name_bytes(HeaderName::CfIpcountry) {
        Some(HeaderName::CfIpcountry)
    } else if t == header_name_bytes(HeaderName::CfRay) {
        Some(HeaderName::CfRay)
    } else if t == header_name_bytes(HeaderName::Date) {
        Some(HeaderName::Date)
    } else if t == header_name_bytes(HeaderName::Expect) {
        Some(HeaderName::Expect)
    } else if t == header_name_bytes(HeaderName::Forwarded) {
        Some(HeaderName::Forwarded)
    } else if t == header_name_bytes(HeaderName::From) {
        Some(HeaderName::From)
    } else if t == header_name_bytes(HeaderName::Host) {
        Some(HeaderName::Host)
    } else if t == header_name_bytes(HeaderName::HTTP2Settings) {
        Some(HeaderName::HTTP2Settings)
    } else if t == header_name_bytes(HeaderName::IfMatch) {
        Some(HeaderName::IfMatch)
    } else if t == header_name_bytes(HeaderName::IfModifiedSince) {
        Some(HeaderName::IfModifiedSince)
    } else if t == header_name_bytes(HeaderName::IfNoneMatch) {
        Some(HeaderName::IfNoneMatch)
    } else if t == header_name_bytes(HeaderName::IfRange) {
        Some(HeaderName::IfRange)
    } else if t == header_name_bytes(HeaderName::IfUnmodifiedSince) {
        Some(HeaderName::IfUnmodifiedSince)
    } else if t == header_name_bytes(HeaderName::MaxForwards) {
        Some(HeaderName::MaxForwards)
    } else if t == header_name_bytes(HeaderName::Origin) {
        Some(HeaderName::Origin)
    } else if t == header_name_bytes(HeaderName::Pragma) {
        Some(HeaderName::Pragma)
    } else if t == header_name_bytes(HeaderName::Prefer) {
        Some(HeaderName::Prefer)
    } else if t == header_name_bytes(HeaderName::ProxyAuthorization) {
        Some(HeaderName::ProxyAuthorization)
    } else if t == header_name_bytes(HeaderName::Priority) {
        Some(HeaderName::Priority)
    } else if t == header_name_bytes(HeaderName::Range) {
        Some(HeaderName::Range)
    } else if t == header_name_bytes(HeaderName::Referer) {
        Some(HeaderName::Referer)
    } else if t == header_name_bytes(HeaderName::TE) {
        Some(HeaderName::TE)
    } else if t == header_name_bytes(HeaderName::Trailer) {
        Some(HeaderName::Trailer)
    } else if t == header_name_bytes(HeaderName::TransferEncoding) {
        Some(HeaderName::TransferEncoding)
    } else if t == header_name_bytes(HeaderName::UserAgent) {
        Some(HeaderName::UserAgent)
    } else if t == header_name_bytes(HeaderName::Upgrade) {
        Some(HeaderName::Upgrade)
    } else if t == header_name_bytes(HeaderName::Via) {
        Some(HeaderName::Via)
    } else if t == header_name_bytes(HeaderName::SecChUa) {
        Some(HeaderName::SecChUa)
    } else if t == header_name_bytes(HeaderName::SecChUaMobile) {
        Some(HeaderName::SecChUaMobile)
    } else if t == header_name_bytes(HeaderName::SecChUaPlatform) {
        Some(HeaderName::SecChUaPlatform)
    } else if t == header_name_bytes(HeaderName::SecFetchDest) {
        Some(HeaderName::SecFetchDest)
    } else if t == header_name_bytes(HeaderName::SecFetchMode) {
        Some(HeaderName::SecFetchMode)
    } else if t == header_name_bytes(HeaderName::SecFetchSite) {
        Some(HeaderName::SecFetchSite)
    } else if t == header_name_bytes(HeaderName::SecFetchUser) {
        Some(HeaderName::SecFetchUser)
    } else if t == header_name_bytes(HeaderName::SecGpc) {
        Some(HeaderName::SecGpc)
    } else if t == header_name_bytes(HeaderName::UpgradeInsecureRequests) {
        Some(HeaderName::UpgradeInsecureRequests)
    } else if t == header_name_bytes(HeaderName::XForwardedProto) {
        Some(HeaderName::XForwardedProto)
    } else if t == header_name_bytes(HeaderName::XHTTPS) {
        Some(HeaderName::XHTTPS)
    } else {
        None
    }
}

impl HeaderName {
    /// Returns the header name as a static string.
    pub fn as_str(&self) -> (r: &'static str)
        ensures
            r@ == header_name_bytes(*self).map(|_i: int, b: u8| b as char),
    {
        match self {
            HeaderName::AIM => {
                let s = "A-IM";
                proof {
                    reveal_strlit("A-IM");
                    assert(s@ =~= header_name_bytes(HeaderName::AIM).map(|_i: int, b: u8| b as char));
                }
                s
            },
            HeaderName::Accept => {
                let s = "Accept";
                proof {
                    reveal_strlit("Accept");
                    assert(s@ =~= header_name_bytes(HeaderName::Accept).map(|_i: int, b: u8| b as char));
                }
                s
            },
            HeaderName::AcceptCharset => {
                let s = "Accept-Charset";
                proof {
                    reveal_strlit("Accept-Charset");
                    assert(s@ =~= header_name_bytes(HeaderName::AcceptCharset).map(|_i: int, b: u8| b as char));
                }
                s
            },
            HeaderName::AcceptDatetime => {
                let s = "Accept-Datetime";
                proof {
                    reveal_strlit("Accept-Datetime");
                    assert(s@ =~= header_name_bytes(HeaderName::AcceptDatetime).map(|_i: int, b: u8| b as char));
                }
                s
            },
            HeaderName::AcceptEncoding => {
                let s = "Accept-Encoding";
                proof {
                    reveal_strlit("Accept-Encoding");
                    assert(s@ =~= header_name_bytes(HeaderName::AcceptEncoding).map(|_i: int, b: u8| b as char));
                }
                s
            },
            HeaderName::AcceptLanguage => {
                let s = "Accept-Language";
                proof {
                    reveal_strlit("Accept-Language");
                    assert(s@ =~= header_name_bytes(HeaderName::AcceptLanguage).map(|_i: int, b: u8| b as char));
                }
                s
            },
            HeaderName::AcceptCtrlSeqMethod => {
                let s = "Accept-Control-Sequence-Method";
                proof {
                    reveal_strlit("Accept-Control-Sequence-Method");
                    assert(s@ =~= header_name_bytes(HeaderName::AcceptCtrlSeqMethod).map(|_i: int, b: u8| b as char));
                }
                s
            },
            HeaderName::AcceptCtrlSeqHeaders => {
                let s = "Accept-Control-Sequence-Headers";
                proof {
                    reveal_strlit("Accept-Control-Sequence-Headers");
                    assert(s@ =~= header_name_bytes(HeaderName::AcceptCtrlSeqHeaders).map(|_i: int, b: u8| b as char));
                }
                s
            },
            HeaderName::Authorization => {
                let s = "Authorezation";
                proof {
                    reveal_strlit("Authorezation");
                    assert(s@ =~= header_name_bytes(HeaderName::Authorization).map(|_i: int, b: u8| b as char));
                }
                s
            },
            HeaderName::CacheControl => {
                let s = "Cache-Control";
                proof {
                    reveal_strlit("Cache-Control");
                    assert(s@ =~= header_name_bytes(HeaderName::CacheControl).map(|_i: int, b: u8| b as char));
                }
                s
            },
            HeaderName::Connection => {
                let s = "Connection";
                proof {
                    reveal_strlit("Connection");
                    assert(s@ =~= header_name_bytes(HeaderName::Connection).map(|_i: int, b: u8| b as char));
                }
                s
            },
            HeaderName::ContentEncoding => {
                let s = "Content-Encoding";
                proof {
                    reveal_strlit("Content-Encoding");
                    assert(s@ =~= header_name_bytes(HeaderName::ContentEncoding).map(|_i: int, b: u8| b as char));
                }
                s
            },
            HeaderName::ContentLength => {
                let s = "Content-Length";
                proof {
                    reveal_strlit("Content-Length");
                    assert(s@ =~= header_name_bytes(HeaderName::ContentLength).map(|_i: int, b: u8| b as char));
                }
                s
            },
            HeaderName::ContentMD5 => {
                let s = "Content-MD5";
                proof {
                    reveal_strlit("Content-MD5");
                    assert(s@ =~= header_name_bytes(HeaderName::ContentMD5).map(|_i: int, b: u8| b as char));
                }
                s
            },
            HeaderName::ContentType => {
                let s = "Content-Type";
                proof {
                    reveal_strlit("Content-Type");
                    assert(s@ =~= header_name_bytes(HeaderName::ContentType).map(|_i: int, b: u8| b as char));
                }
                s
            },
            HeaderName::Cookie => {
                let s = "Cookie";
                proof {
                    reveal_strlit("Cookie");
                    assert(s@ =~= header_name_bytes(HeaderName::Cookie).map(|_i: int, b: u8| b as char));
                }
                s
            },
            HeaderName::CfVisitor => {
                let s = "Cf-Visitor";
                proof {
                    reveal_strlit("Cf-Visitor");
                    assert(s@ =~= header_name_bytes(HeaderName::CfVisitor).map(|_i: int, b: u8| b as char));
                }
                s
            },
            HeaderName::CfConnectionIp => {
                let s = "Cf-Connection-Ip";
                proof {
                    reveal_strlit("Cf-Connection-Ip");
                    assert(s@ =~= header_name_bytes(HeaderName::CfConnectionIp).map(|_i: int, b: u8| b as char));
                }
                s
            },
            HeaderName::CfIpcountry => {
                let s = "Cf-Ipcountry";
                proof {
                    reveal_strlit("Cf-Ipcountry");
                    assert(s@ =~= header_name_bytes(HeaderName::CfIpcountry).map(|_i: int, b: u8| b as char));
                }
                s
            },
            HeaderName::CfRay => {
                let s = "Cf-Ray";
                proof {
                    reveal_strlit("Cf-Ray");
                    assert(s@ =~= header_name_bytes(HeaderName::CfRay).map(|_i: int, b: u8| b as char));
                }
                s
            },
            HeaderName::Date => {
                let s = "Date";
                proof {
                    reveal_strlit("Date");
                    assert(s@ =~= header_name_bytes(HeaderName::Date).map(|_i: int, b: u8| b as char));
                }
                s
            },
            HeaderName::Expect => {
                let s = "Expect";
                proof {
                    reveal_strlit("Expect");
                    assert(s@ =~= header_name_bytes(HeaderName::Expect).map(|_i: int, b: u8| b as char));
                }
                s
            },
            HeaderName::Forwarded => {
                let s = "Forwarded";
                proof {
                    reveal_strlit("Forwarded");
                    assert(s@ =~= header_name_bytes(HeaderName::Forwarded).map(|_i: int, b: u8| b as char));
                }
                s
            },
            HeaderName::From => {
                let s = "From";
                proof {
                    reveal_strlit("From");
                    assert(s@ =~= header_name_bytes(HeaderName::From).map(|_i: int, b: u8| b as char));
                }
                s
            },
            HeaderName::Host => {
                let s = "Host";
                proof {
                    reveal_strlit("Host");
                    assert(s@ =~= header_name_bytes(HeaderName::Host).map(|_i: int, b: u8| b as char));
                }
                s
            },
            HeaderName::HTTP2Settings => {
                let s = "HTTP2-Settings";
                proof {
                    reveal_strlit("HTTP2-Settings");
                    assert(s@ =~= header_name_bytes(HeaderName::HTTP2Settings).map(|_i: int, b: u8| b as char));
                }
                s
            },
            HeaderName::IfMatch => {
                let s = "If-Match";
                proof {
                    reveal_strlit("If-Match");
                    assert(s@ =~= header_name_bytes(HeaderName::IfMatch).map(|_i: int, b: u8| b as char));
                }
                s
            },
            HeaderName::IfModifiedSince => {
                let s = "If-Modified-Since";
                proof {
                    reveal_strlit("If-Modified-Since");
                    assert(s@ =~= header_name_bytes(HeaderName::IfModifiedSince).map(|_i: int, b: u8| b as char));
                }
                s
            },
            HeaderName::IfNoneMatch => {
                let s = "If-None-Match";
                proof {
                    reveal_strlit("If-None-Match");
                    assert(s@ =~= header_name_bytes(HeaderName::IfNoneMatch).map(|_i: int, b: u8| b as char));
                }
                s
            },
            HeaderName::IfRange => {
                let s = "If-Range";
                proof {
                    reveal_strlit("If-Range");
                    assert(s@ =~= header_name_bytes(HeaderName::IfRange).map(|_i: int, b: u8| b as char));
                }
                s
            },
            HeaderName::IfUnmodifiedSince => {
                let s = "If-Unmodified-Since";
                proof {
                    reveal_strlit("If-Unmodified-Since");
                    assert(s@ =~= header_name_bytes(HeaderName::IfUnmodifiedSince).map(|_i: int, b: u8| b as char));
                }
                s
            },
            HeaderName::MaxForwards => {
                let s = "Max-Forwards";
                proof {
                    reveal_strlit("Max-Forwards");
                    assert(s@ =~= header_name_bytes(HeaderName::MaxForwards).map(|_i: int, b: u8| b as char));
                }
                s
            },
            HeaderName::Origin => {
                let s = "Origin";
                proof {
                    reveal_strlit("Origin");
                    assert(s@ =~= header_name_bytes(HeaderName::Origin).map(|_i: int, b: u8| b as char));
                }
                s
            },
            HeaderName::Pragma => {
                let s = "Pragma";
                proof {
                    reveal_strlit("Pragma");
                    assert(s@ =~= header_name_bytes(HeaderName::Pragma).map(|_i: int, b: u8| b as char));
                }
                s
            },
            HeaderName::Prefer => {
                let s = "Prefer";
                proof {
                    reveal_strlit("Prefer");
                    assert(s@ =~= header_name_bytes(HeaderName::Prefer).map(|_i: int, b: u8| b as char));
                }
                s
            },
            HeaderName::ProxyAuthorization => {
                let s = "Proxy-Authorization";
                proof {
                    reveal_strlit("Proxy-Authorization");
                    assert(s@ =~= header_name_bytes(HeaderName::ProxyAuthorization).map(|_i: int, b: u8| b as char));
                }
                s
            },
            HeaderName::Priority => {
                let s = "Priority";
                proof {
                    reveal_strlit("Priority");
                    assert(s@ =~= header_name_bytes(HeaderName::Priority).map(|_i: int, b: u8| b as char));
                }
                s
            },
            HeaderName::Range => {
                let s = "Range";
                proof {
                    reveal_strlit("Range");
                    assert(s@ =~= header_name_bytes(HeaderName::Range).map(|_i: int, b: u8| b as char));
                }
                s
            },
            HeaderName::Referer => {
                let s = "Referer";
                proof {
                    reveal_strlit("Referer");
                    assert(s@ =~= header_name_bytes(HeaderName::Referer).map(|_i: int, b: u8| b as char));
                }
                s
            },
            HeaderName::TE => {
                let s = "TE";
                proof {
                    reveal_strlit("TE");
                    assert(s@ =~= header_name_bytes(HeaderName::TE).map(|_i: int, b: u8| b as char));
                }
                s
            },
            HeaderName::Trailer => {
                let s = "Trailer";
                proof {
                    reveal_strlit("Trailer");
                    assert(s@ =~= header_name_bytes(HeaderName::Trailer).map(|_i: int, b: u8| b as char));
                }
                s
            },
            HeaderName::TransferEncoding => {
                let s = "Transfer-Encoding";
                proof {
                    reveal_strlit("Transfer-Encoding");
                    assert(s@ =~= header_name_bytes(HeaderName::TransferEncoding).map(|_i: int, b: u8| b as char));
                }
                s
            },
            HeaderName::UserAgent => {
                let s = "User-Agent";
                proof {
                    reveal_strlit("User-Agent");
                    assert(s@ =~= header_name_bytes(HeaderName::UserAgent).map(|_i: int, b: u8| b as char));
                }
                s
            },
            HeaderName::Upgrade => {
                let s = "Upgrade";
                proof {
                    reveal_strlit("Upgrade");
                    assert(s@ =~= header_name_bytes(HeaderName::Upgrade).map(|_i: int, b: u8| b as char));
                }
                s
            },
            HeaderName::Via => {
                let s = "Via";
                proof {
                    reveal_strlit("Via");
                    assert(s@ =~= header_name_bytes(HeaderName::Via).map(|_i: int, b: u8| b as char));
                }
                s
            },
            HeaderName::SecChUa => {
                let s = "sec-ch-ua";
                proof {
                    reveal_strlit("sec-ch-ua");
                    assert(s@ =~= header_name_bytes(HeaderName::SecChUa).map(|_i: int, b: u8| b as char));
                }
                s
            },
            HeaderName::SecChUaMobile => {
                let s = "sec-ch-ua-mobile";
                proof {
                    reveal_strlit("sec-ch-ua-mobile");
                    assert(s@ =~= header_name_bytes(HeaderName::SecChUaMobile).map(|_i: int, b: u8| b as char));
                }
                s
            },
            HeaderName::SecChUaPlatform => {
                let s = "sec-ch-ua-platform";
                proof {
                    reveal_strlit("sec-ch-ua-platform");
                    assert(s@ =~= header_name_bytes(HeaderName::SecChUaPlatform).map(|_i: int, b: u8| b as char));
                }
                s
            },
            HeaderName::SecFetchDest => {
                let s = "Sec-Fetch-Dest";
                proof {
                    reveal_strlit("Sec-Fetch-Dest");
                    assert(s@ =~= header_name_bytes(HeaderName::SecFetchDest).map(|_i: int, b: u8| b as char));
                }
                s
            },
            HeaderName::SecFetchMode => {
                let s = "Sec-Fetch-Mode";
                proof {
                    reveal_strlit("Sec-Fetch-Mode");
                    assert(s@ =~= header_name_bytes(HeaderName::SecFetchMode).map(|_i: int, b: u8| b as char));
                }
                s
            },
            HeaderName::SecFetchSite => {
                let s = "Sec-Fetch-Site";
                proof {
                    reveal_strlit("Sec-Fetch-Site");
                    assert(s@ =~= header_name_bytes(HeaderName::SecFetchSite).map(|_i: int, b: u8| b as char));
                }
                s
            },
            HeaderName::SecFetchUser => {
                let s = "Sec-Fetch-User";
                proof {
                    reveal_strlit("Sec-Fetch-User");
                    assert(s@ =~= header_name_bytes(HeaderName::SecFetchUser).map(|_i: int, b: u8| b as char));
                }
                s
            },
            HeaderName::SecGpc => {
                let s = "Sec-GPC";
                proof {
                    reveal_strlit("Sec-GPC");
                    assert(s@ =~= header_name_bytes(HeaderName::SecGpc).map(|_i: int, b: u8| b as char));
                }
                s
            },
            HeaderName::UpgradeInsecureRequests => {
                let s = "Upgrade-Insecure-Requests";
                proof {
                    reveal_strlit("Upgrade-Insecure-Requests");
                    assert(s@ =~= header_name_bytes(HeaderName::UpgradeInsecureRequests).map(|_i: int, b: u8| b as char));
                }
                s
            },
            HeaderName::XForwardedProto => {
                let s = "X-Forwarded-Proto";
                proof {
                    reveal_strlit("X-Forwarded-Proto");
                    assert(s@ =~= header_name_bytes(HeaderName::XForwardedProto).map(|_i: int, b: u8| b as char));
                }
                s
            },
            HeaderName::XHTTPS => {
                let s = "X-HTTPS";
                proof {
                    reveal_strlit("X-HTTPS");
                    assert(s@ =~= header_name_bytes(HeaderName::XHTTPS).map(|_i: int, b: u8| b as char));
                }
                s
            },
        }
    }

    /// Returns the header name's wire bytes.
    pub fn wire_bytes(&self) -> (r: Vec<u8>)
        ensures
            r@ == header_name_bytes(*self),
    {
        match self {
            HeaderName::AIM => {
                let a: [u8; 4] = ['A' as u8, '-' as u8, 'I' as u8, 'M' as u8];
                proof {
                    assert(a@ =~= header_name_bytes(HeaderName::AIM));
                }
                vstd::slice::slice_to_vec(a.as_slice())
            },
            HeaderName::Accept => {
                let a: [u8; 6] = ['A' as u8, 'c' as u8, 'c' as u8, 'e' as u8, 'p' as u8, 't' as u8];
                proof {
                    assert(a@ =~= header_name_bytes(HeaderName::Accept));
                }
                vstd::slice::slice_to_vec(a.as_slice())
            },
            HeaderName::AcceptCharset => {
                let a: [u8; 14] = ['A' as u8, 'c' as u8, 'c' as u8, 'e' as u8, 'p' as u8, 't' as u8, '-' as u8, 'C' as u8, 'h' as u8, 'a' as u8, 'r' as u8, 's' as u8, 'e' as u8, 't' as u8];
                proof {
                    assert(a@ =~= header_name_bytes(HeaderName::AcceptCharset));
                }
                vstd::slice::slice_to_vec(a.as_slice())
            },
            HeaderName::AcceptDatetime => {
                let a: [u8; 15] = ['A' as u8, 'c' as u8, 'c' as u8, 'e' as u8, 'p' as u8, 't' as u8, '-' as u8, 'D' as u8, 'a' as u8, 't' as u8, 'e' as u8, 't' as u8, 'i' as u8, 'm' as u8, 'e' as u8];
                proof {
                    assert(a@ =~= header_name_bytes(HeaderName::AcceptDatetime));
                }
                vstd::slice::slice_to_vec(a.as_slice())
            },
            HeaderName::AcceptEncoding => {
                let a: [u8; 15] = ['A' as u8, 'c' as u8, 'c' as u8, 'e' as u8, 'p' as u8, 't' as u8, '-' as u8, 'E' as u8, 'n' as u8, 'c' as u8, 'o' as u8, 'd' as u8, 'i' as u8, 'n' as u8, 'g' as u8];
                proof {
                    assert(a@ =~= header_name_bytes(HeaderName::AcceptEncoding));
                }
                vstd::slice::slice_to_vec(a.as_slice())
            },
            HeaderName::AcceptLanguage => {
                let a: [u8; 15] = ['A' as u8, 'c' as u8, 'c' as u8, 'e' as u8, 'p' as u8, 't' as u8, '-' as u8, 'L' as u8, 'a' as u8, 'n' as u8, 'g' as u8, 'u' as u8, 'a' as u8, 'g' as u8, 'e' as u8];
                proof {
                    assert(a@ =~= header_name_bytes(HeaderName::AcceptLanguage));
                }
                vstd::slice::slice_to_vec(a.as_slice())
            },
            HeaderName::AcceptCtrlSeqMethod => {
                let a: [u8; 30] = ['A' as u8, 'c' as u8, 'c' as u8, 'e' as u8, 'p' as u8, 't' as u8, '-' as u8, 'C' as u8, 'o' as u8, 'n' as u8, 't' as u8, 'r' as u8, 'o' as u8, 'l' as u8, '-' as u8, 'S' as u8, 'e' as u8, 'q' as u8, 'u' as u8, 'e' as u8, 'n' as u8, 'c' as u8, 'e' as u8, '-' as u8, 'M' as u8, 'e' as u8, 't' as u8, 'h' as u8, 'o' as u8, 'd' as u8];
                proof {
                    assert(a@ =~= header_name_bytes(HeaderName::AcceptCtrlSeqMethod));
                }
                vstd::slice::slice_to_vec(a.as_slice())
            },
            HeaderName::AcceptCtrlSeqHeaders => {
                let a: [u8; 31] = ['A' as u8, 'c' as u8, 'c' as u8, 'e' as u8, 'p' as u8, 't' as u8, '-' as u8, 'C' as u8, 'o' as u8, 'n' as u8, 't' as u8, 'r' as u8, 'o' as u8, 'l' as u8, '-' as u8, 'S' as u8, 'e' as u8, 'q' as u8, 'u' as u8, 'e' as u8, 'n' as u8, 'c' as u8, 'e' as u8, '-' as u8, 'H' as u8, 'e' as u8, 'a' as u8, 'd' as u8, 'e' as u8, 'r' as u8, 's' as u8];
                proof {
                    assert(a@ =~= header_name_bytes(HeaderName::AcceptCtrlSeqHeaders));
                }
                vstd::slice::slice_to_vec(a.as_slice())
            },
            HeaderName::Authorization => {
                let a: [u8; 13] = ['A' as u8, 'u' as u8, 't' as u8, 'h' as u8, 'o' as u8, 'r' as u8, 'e' as u8, 'z' as u8, 'a' as u8, 't' as u8, 'i' as u8, 'o' as u8, 'n' as u8];
                proof {
                    assert(a@ =~= header_name_bytes(HeaderName::Authorization));
                }
                vstd::slice::slice_to_vec(a.as_slice())
            },
            HeaderName::CacheControl => {
                let a: [u8; 13] = ['C' as u8, 'a' as u8, 'c' as u8, 'h' as u8, 'e' as u8, '-' as u8, 'C' as u8, 'o' as u8, 'n' as u8, 't' as u8, 'r' as u8, 'o' as u8, 'l' as u8];
                proof {
                    assert(a@ =~= header_name_bytes(HeaderName::CacheControl));
                }
                vstd::slice::slice_to_vec(a.as_slice())
            },
            HeaderName::Connection => {
                let a: [u8; 10] = ['C' as u8, 'o' as u8, 'n' as u8, 'n' as u8, 'e' as u8, 'c' as u8, 't' as u8, 'i' as u8, 'o' as u8, 'n' as u8];
                proof {
                    assert(a@ =~= header_name_bytes(HeaderName::Connection));
                }
                vstd::slice::slice_to_vec(a.as_slice())
            },
            HeaderName::ContentEncoding => {
                let a: [u8; 16] = ['C' as u8, 'o' as u8, 'n' as u8, 't' as u8, 'e' as u8, 'n' as u8, 't' as u8, '-' as u8, 'E' as u8, 'n' as u8, 'c' as u8, 'o' as u8, 'd' as u8, 'i' as u8, 'n' as u8, 'g' as u8];
                proof {
                    assert(a@ =~= header_name_bytes(HeaderName::ContentEncoding));
                }
                vstd::slice::slice_to_vec(a.as_slice())
            },
            HeaderName::ContentLength => {
                let a: [u8; 14] = ['C' as u8, 'o' as u8, 'n' as u8, 't' as u8, 'e' as u8, 'n' as u8, 't' as u8, '-' as u8, 'L' as u8, 'e' as u8, 'n' as u8, 'g' as u8, 't' as u8, 'h' as u8];
                proof {
                    assert(a@ =~= header_name_bytes(HeaderName::ContentLength));
                }
                vstd::slice::slice_to_vec(a.as_slice())
            },
            HeaderName::ContentMD5 => {
                let a: [u8; 11] = ['C' as u8, 'o' as u8, 'n' as u8, 't' as u8, 'e' as u8, 'n' as u8, 't' as u8, '-' as u8, 'M' as u8, 'D' as u8, '5' as u8];
                proof {
                    assert(a@ =~= header_name_bytes(HeaderName::ContentMD5));
                }
                vstd::slice::slice_to_vec(a.as_slice())
            },
            HeaderName::ContentType => {
                let a: [u8; 12] = ['C' as u8, 'o' as u8, 'n' as u8, 't' as u8, 'e' as u8, 'n' as u8, 't' as u8, '-' as u8, 'T' as u8, 'y' as u8, 'p' as u8, 'e' as u8];
                proof {
                    assert(a@ =~= header_name_bytes(HeaderName::ContentType));
                }
                vstd::slice::slice_to_vec(a.as_slice())
            },
            HeaderName::Cookie => {
                let a: [u8; 6] = ['C' as u8, 'o' as u8, 'o' as u8, 'k' as u8, 'i' as u8, 'e' as u8];
                proof {
                    assert(a@ =~= header_name_bytes(HeaderName::Cookie));
                }
                vstd::slice::slice_to_vec(a.as_slice())
            },
            HeaderName::CfVisitor => {
                let a: [u8; 10] = ['C' as u8, 'f' as u8, '-' as u8, 'V' as u8, 'i' as u8, 's' as u8, 'i' as u8, 't' as u8, 'o' as u8, 'r' as u8];
                proof {
                    assert(a@ =~= header_name_bytes(HeaderName::CfVisitor));
                }
                vstd::slice::slice_to_vec(a.as_slice())
            },
            HeaderName::CfConnectionIp => {
                let a: [u8; 16] = ['C' as u8, 'f' as u8, '-' as u8, 'C' as u8, 'o' as u8, 'n' as u8, 'n' as u8, 'e' as u8, 'c' as u8, 't' as u8, 'i' as u8, 'o' as u8, 'n' as u8, '-' as u8, 'I' as u8, 'p' as u8];
                proof {
                    assert(a@ =~= header_name_bytes(HeaderName::CfConnectionIp));
                }
                vstd::slice::slice_to_vec(a.as_slice())
            },
            HeaderName::CfIpcountry => {
                let a: [u8; 12] = ['C' as u8, 'f' as u8, '-' as u8, 'I' as u8, 'p' as u8, 'c' as u8, 'o' as u8, 'u' as u8, 'n' as u8, 't' as u8, 'r' as u8, 'y' as u8];
                proof {
                    assert(a@ =~= header_name_bytes(HeaderName::CfIpcountry));
                }
                vstd::slice::slice_to_vec(a.as_slice())
            },
            HeaderName::CfRay => {
                let a: [u8; 6] = ['C' as u8, 'f' as u8, '-' as u8, 'R' as u8, 'a' as u8, 'y' as u8];
                proof {
                    assert(a@ =~= header_name_bytes(HeaderName::CfRay));
                }
                vstd::slice::slice_to_vec(a.as_slice())
            },
            HeaderName::Date => {
                let a: [u8; 4] = ['D' as u8, 'a' as u8, 't' as u8, 'e' as u8];
                proof {
                    assert(a@ =~= header_name_bytes(HeaderName::Date));
                }
                vstd::slice::slice_to_vec(a.as_slice())
            },
            HeaderName::Expect => {
                let a: [u8; 6] = ['E' as u8, 'x' as u8, 'p' as u8, 'e' as u8, 'c' as u8, 't' as u8];
                proof {
                    assert(a@ =~= header_name_bytes(HeaderName::Expect));
                }
                vstd::slice::slice_to_vec(a.as_slice())
            },
            HeaderName::Forwarded => {
                let a: [u8; 9] = ['F' as u8, 'o' as u8, 'r' as u8, 'w' as u8, 'a' as u8, 'r' as u8, 'd' as u8, 'e' as u8, 'd' as u8];
                proof {
                    assert(a@ =~= header_name_bytes(HeaderName::Forwarded));
                }
                vstd::slice::slice_to_vec(a.as_slice())
            },
            HeaderName::From => {
                let a: [u8; 4] = ['F' as u8, 'r' as u8, 'o' as u8, 'm' as u8];
                proof {
                    assert(a@ =~= header_name_bytes(HeaderName::From));
                }
                vstd::slice::slice_to_vec(a.as_slice())
            },
            HeaderName::Host => {
                let a: [u8; 4] = ['H' as u8, 'o' as u8, 's' as u8, 't' as u8];
                proof {
                    assert(a@ =~= header_name_bytes(HeaderName::Host));
                }
                vstd::slice::slice_to_vec(a.as_slice())
            },
            HeaderName::HTTP2Settings => {
                let a: [u8; 14] = ['H' as u8, 'T' as u8, 'T' as u8, 'P' as u8, '2' as u8, '-' as u8, 'S' as u8, 'e' as u8, 't' as u8, 't' as u8, 'i' as u8, 'n' as u8, 'g' as u8, 's' as u8];
                proof {
                    assert(a@ =~= header_name_bytes(HeaderName::HTTP2Settings));
                }
                vstd::slice::slice_to_vec(a.as_slice())
            },
            HeaderName::IfMatch => {
                let a: [u8; 8] = ['I' as u8, 'f' as u8, '-' as u8, 'M' as u8, 'a' as u8, 't' as u8, 'c' as u8, 'h' as u8];
                proof {
                    assert(a@ =~= header_name_bytes(HeaderName::IfMatch));
                }
                vstd::slice::slice_to_vec(a.as_slice())
            },
            HeaderName::IfModifiedSince => {
                let a: [u8; 17] = ['I' as u8, 'f' as u8, '-' as u8, 'M' as u8, 'o' as u8, 'd' as u8, 'i' as u8, 'f' as u8, 'i' as u8, 'e' as u8, 'd' as u8, '-' as u8, 'S' as u8, 'i' as u8, 'n' as u8, 'c' as u8, 'e' as u8];
                proof {
                    assert(a@ =~= header_name_bytes(HeaderName::IfModifiedSince));
                }
                vstd::slice::slice_to_vec(a.as_slice())
            },
            HeaderName::IfNoneMatch => {
                let a: [u8; 13] = ['I' as u8, 'f' as u8, '-' as u8, 'N' as u8, 'o' as u8, 'n' as u8, 'e' as u8, '-' as u8, 'M' as u8, 'a' as u8, 't' as u8, 'c' as u8, 'h' as u8];
                proof {
                    assert(a@ =~= header_name_bytes(HeaderName::IfNoneMatch));
                }
                vstd::slice::slice_to_vec(a.as_slice())
            },
            HeaderName::IfRange => {
                let a: [u8; 8] = ['I' as u8, 'f' as u8, '-' as u8, 'R' as u8, 'a' as u8, 'n' as u8, 'g' as u8, 'e' as u8];
                proof {
                    assert(a@ =~= header_name_bytes(HeaderName::IfRange));
                }
                vstd::slice::slice_to_vec(a.as_slice())
            },
            HeaderName::IfUnmodifiedSince => {
                let a: [u8; 19] = ['I' as u8, 'f' as u8, '-' as u8, 'U' as u8, 'n' as u8, 'm' as u8, 'o' as u8, 'd' as u8, 'i' as u8, 'f' as u8, 'i' as u8, 'e' as u8, 'd' as u8, '-' as u8, 'S' as u8, 'i' as u8, 'n' as u8, 'c' as u8, 'e' as u8];
                proof {
                    assert(a@ =~= header_name_bytes(HeaderName::IfUnmodifiedSince));
                }
                vstd::slice::slice_to_vec(a.as_slice())
            },
            HeaderName::MaxForwards => {
                let a: [u8; 12] = ['M' as u8, 'a' as u8, 'x' as u8, '-' as u8, 'F' as u8, 'o' as u8, 'r' as u8, 'w' as u8, 'a' as u8, 'r' as u8, 'd' as u8, 's' as u8];
                proof {
                    assert(a@ =~= header_name_bytes(HeaderName::MaxForwards));
                }
                vstd::slice::slice_to_vec(a.as_slice())
            },
            HeaderName::Origin => {
                let a: [u8; 6] = ['O' as u8, 'r' as u8, 'i' as u8, 'g' as u8, 'i' as u8, 'n' as u8];
                proof {
                    assert(a@ =~= header_name_bytes(HeaderName::Origin));
                }
                vstd::slice::slice_to_vec(a.as_slice())
            },
            HeaderName::Pragma => {
                let a: [u8; 6] = ['P' as u8, 'r' as u8, 'a' as u8, 'g' as u8, 'm' as u8, 'a' as u8];
                proof {
                    assert(a@ =~= header_name_bytes(HeaderName::Pragma));
                }
                vstd::slice::slice_to_vec(a.as_slice())
            },
            HeaderName::Prefer => {
                let a: [u8; 6] = ['P' as u8, 'r' as u8, 'e' as u8, 'f' as u8, 'e' as u8, 'r' as u8];
                proof {
                    assert(a@ =~= header_name_bytes(HeaderName::Prefer));
                }
                vstd::slice::slice_to_vec(a.as_slice())
            },
            HeaderName::ProxyAuthorization => {
                let a: [u8; 19] = ['P' as u8, 'r' as u8, 'o' as u8, 'x' as u8, 'y' as u8, '-' as u8, 'A' as u8, 'u' as u8, 't' as u8, 'h' as u8, 'o' as u8, 'r' as u8, 'i' as u8, 'z' as u8, 'a' as u8, 't' as u8, 'i' as u8, 'o' as u8, 'n' as u8];
                proof {
                    assert(a@ =~= header_name_bytes(HeaderName::ProxyAuthorization));
                }
                vstd::slice::slice_to_vec(a.as_slice())
            },
            HeaderName::Priority => {
                let a: [u8; 8] = ['P' as u8, 'r' as u8, 'i' as u8, 'o' as u8, 'r' as u8, 'i' as u8, 't' as u8, 'y' as u8];
                proof {
                    assert(a@ =~= header_name_bytes(HeaderName::Priority));
                }
                vstd::slice::slice_to_vec(a.as_slice())
            },
            HeaderName::Range => {
                let a: [u8; 5] = ['R' as u8, 'a' as u8, 'n' as u8, 'g' as u8, 'e' as u8];
                proof {
                    assert(a@ =~= header_name_bytes(HeaderName::Range));
                }
                vstd::slice::slice_to_vec(a.as_slice())
            },
            HeaderName::Referer => {
                let a: [u8; 7] = ['R' as u8, 'e' as u8, 'f' as u8, 'e' as u8, 'r' as u8, 'e' as u8, 'r' as u8];
                proof {
                    assert(a@ =~= header_name_bytes(HeaderName::Referer));
                }
                vstd::slice::slice_to_vec(a.as_slice())
            },
            HeaderName::TE => {
                let a: [u8; 2] = ['T' as u8, 'E' as u8];
                proof {
                    assert(a@ =~= header_name_bytes(HeaderName::TE));
                }
                vstd::slice::slice_to_vec(a.as_slice())
            },
            HeaderName::Trailer => {
                let a: [u8; 7] = ['T' as u8, 'r' as u8, 'a' as u8, 'i' as u8, 'l' as u8, 'e' as u8, 'r' as u8];
                proof {
                    assert(a@ =~= header_name_bytes(HeaderName::Trailer));
                }
                vstd::slice::slice_to_vec(a.as_slice())
            },
            HeaderName::TransferEncoding => {
                let a: [u8; 17] = ['T' as u8, 'r' as u8, 'a' as u8, 'n' as u8, 's' as u8, 'f' as u8, 'e' as u8, 'r' as u8, '-' as u8, 'E' as u8, 'n' as u8, 'c' as u8, 'o' as u8, 'd' as u8, 'i' as u8, 'n' as u8, 'g' as u8];
                proof {
                    assert(a@ =~= header_name_bytes(HeaderName::TransferEncoding));
                }
                vstd::slice::slice_to_vec(a.as_slice())
            },
            HeaderName::UserAgent => {
                let a: [u8; 10] = ['U' as u8, 's' as u8, 'e' as u8, 'r' as u8, '-' as u8, 'A' as u8, 'g' as u8, 'e' as u8, 'n' as u8, 't' as u8];
                proof {
                    assert(a@ =~= header_name_bytes(HeaderName::UserAgent));
                }
                vstd::slice::slice_to_vec(a.as_slice())
            },
            HeaderName::Upgrade => {
                let a: [u8; 7] = ['U' as u8, 'p' as u8, 'g' as u8, 'r' as u8, 'a' as u8, 'd' as u8, 'e' as u8];
                proof {
                    assert(a@ =~= header_name_bytes(HeaderName::Upgrade));
                }
                vstd::slice::slice_to_vec(a.as_slice())
            },
            HeaderName::Via => {
                let a: [u8; 3] = ['V' as u8, 'i' as u8, 'a' as u8];
                proof {
                    assert(a@ =~= header_name_bytes(HeaderName::Via));
                }
                vstd::slice::slice_to_vec(a.as_slice())
            },
            HeaderName::SecChUa => {
                let a: [u8; 9] = ['s' as u8, 'e' as u8, 'c' as u8, '-' as u8, 'c' as u8, 'h' as u8, '-' as u8, 'u' as u8, 'a' as u8];
                proof {
                    assert(a@ =~= header_name_bytes(HeaderName::SecChUa));
                }
                vstd::slice::slice_to_vec(a.as_slice())
            },
            HeaderName::SecChUaMobile => {
                let a: [u8; 16] = ['s' as u8, 'e' as u8, 'c' as u8, '-' as u8, 'c' as u8, 'h' as u8, '-' as u8, 'u' as u8, 'a' as u8, '-' as u8, 'm' as u8, 'o' as u8, 'b' as u8, 'i' as u8, 'l' as u8, 'e' as u8];
                proof {
                    assert(a@ =~= header_name_bytes(HeaderName::SecChUaMobile));
                }
                vstd::slice::slice_to_vec(a.as_slice())
            },
            HeaderName::SecChUaPlatform => {
                let a: [u8; 18] = ['s' as u8, 'e' as u8, 'c' as u8, '-' as u8, 'c' as u8, 'h' as u8, '-' as u8, 'u' as u8, 'a' as u8, '-' as u8, 'p' as u8, 'l' as u8, 'a' as u8, 't' as u8, 'f' as u8, 'o' as u8, 'r' as u8, 'm' as u8];
                proof {
                    assert(a@ =~= header_name_bytes(HeaderName::SecChUaPlatform));
                }
                vstd::slice::slice_to_vec(a.as_slice())
            },
            HeaderName::SecFetchDest => {
                let a: [u8; 14] = ['S' as u8, 'e' as u8, 'c' as u8, '-' as u8, 'F' as u8, 'e' as u8, 't' as u8, 'c' as u8, 'h' as u8, '-' as u8, 'D' as u8, 'e' as u8, 's' as u8, 't' as u8];
                proof {
                    assert(a@ =~= header_name_bytes(HeaderName::SecFetchDest));
                }
                vstd::slice::slice_to_vec(a.as_slice())
            },
            HeaderName::SecFetchMode => {
                let a: [u8; 14] = ['S' as u8, 'e' as u8, 'c' as u8, '-' as u8, 'F' as u8, 'e' as u8, 't' as u8, 'c' as u8, 'h' as u8, '-' as u8, 'M' as u8, 'o' as u8, 'd' as u8, 'e' as u8];
                proof {
                    assert(a@ =~= header_name_bytes(HeaderName::SecFetchMode));
                }
                vstd::slice::slice_to_vec(a.as_slice())
            },
            HeaderName::SecFetchSite => {
                let a: [u8; 14] = ['S' as u8, 'e' as u8, 'c' as u8, '-' as u8, 'F' as u8, 'e' as u8, 't' as u8, 'c' as u8, 'h' as u8, '-' as u8, 'S' as u8, 'i' as u8, 't' as u8, 'e' as u8];
                proof {
                    assert(a@ =~= header_name_bytes(HeaderName::SecFetchSite));
                }
                vstd::slice::slice_to_vec(a.as_slice())
            },
            HeaderName::SecFetchUser => {
                let a: [u8; 14] = ['S' as u8, 'e' as u8, 'c' as u8, '-' as u8, 'F' as u8, 'e' as u8, 't' as u8, 'c' as u8, 'h' as u8, '-' as u8, 'U' as u8, 's' as u8, 'e' as u8, 'r' as u8];
                proof {
                    assert(a@ =~= header_name_bytes(HeaderName::SecFetchUser));
                }
                vstd::slice::slice_to_vec(a.as_slice())
            },
            HeaderName::SecGpc => {
                let a: [u8; 7] = ['S' as u8, 'e' as u8, 'c' as u8, '-' as u8, 'G' as u8, 'P' as u8, 'C' as u8];
                proof {
                    assert(a@ =~= header_name_bytes(HeaderName::SecGpc));
                }
                vstd::slice::slice_to_vec(a.as_slice())
            },
            HeaderName::UpgradeInsecureRequests => {
                let a: [u8; 25] = ['U' as u8, 'p' as u8, 'g' as u8, 'r' as u8, 'a' as u8, 'd' as u8, 'e' as u8, '-' as u8, 'I' as u8, 'n' as u8, 's' as u8, 'e' as u8, 'c' as u8, 'u' as u8, 'r' as u8, 'e' as u8, '-' as u8, 'R' as u8, 'e' as u8, 'q' as u8, 'u' as u8, 'e' as u8, 's' as u8, 't' as u8, 's' as u8];
                proof {
                    assert(a@ =~= header_name_bytes(HeaderName::UpgradeInsecureRequests));
                }
                vstd::slice::slice_to_vec(a.as_slice())
            },
            HeaderName::XForwardedProto => {
                let a: [u8; 17] = ['X' as u8, '-' as u8, 'F' as u8, 'o' as u8, 'r' as u8, 'w' as u8, 'a' as u8, 'r' as u8, 'd' as u8, 'e' as u8, 'd' as u8, '-' as u8, 'P' as u8, 'r' as u8, 'o' as u8, 't' as u8, 'o' as u8];
                proof {
                    assert(a@ =~= header_name_bytes(HeaderName::XForwardedProto));
                }
                vstd::slice::slice_to_vec(a.as_slice())
            },
            HeaderName::XHTTPS => {
                let a: [u8; 7] = ['X' as u8, '-' as u8, 'H' as u8, 'T' as u8, 'T' as u8, 'P' as u8, 'S' as u8];
                proof {
                    assert(a@ =~= header_name_bytes(HeaderName::XHTTPS));
                }
                vstd::slice::slice_to_vec(a.as_slice())
            },
        }
    }

    /// Parses a recognized header name from its exact wire bytes.
    ///
    /// If the bytes match no table entry, the method returns `None`.
    pub fn from_bytes(bytes: &[u8]) -> (r: Option<HeaderName>)
        ensures
            r == spec_header_name_of(bytes@),
    {
        {
            let a: [u8; 4] = ['A' as u8, '-' as u8, 'I' as u8, 'M' as u8];
            proof {
                assert(a@ =~= header_name_bytes(HeaderName::AIM));
            }
            if bytes_eq(bytes, a.as_slice()) {
                return Some(HeaderName::AIM);
            }
        }
        {
            let a: [u8; 6] = ['A' as u8, 'c' as u8, 'c' as u8, 'e' as u8, 'p' as u8, 't' as u8];
            proof {
                assert(a@ =~= header_name_bytes(HeaderName::Accept));
            }
            if bytes_eq(bytes, a.as_slice()) {
                return Some(HeaderName::Accept);
            }
        }
        {
            let a: [u8; 14] = ['A' as u8, 'c' as u8, 'c' as u8, 'e' as u8, 'p' as u8, 't' as u8, '-' as u8, 'C' as u8, 'h' as u8, 'a' as u8, 'r' as u8, 's' as u8, 'e' as u8, 't' as u8];
            proof {
                assert(a@ =~= header_name_bytes(HeaderName::AcceptCharset));
            }
            if bytes_eq(bytes, a.as_slice()) {
                return Some(HeaderName::AcceptCharset);
            }
        }
        {
            let a: [u8; 15] = ['A' as u8, 'c' as u8, 'c' as u8, 'e' as u8, 'p' as u8, 't' as u8, '-' as u8, 'D' as u8, 'a' as u8, 't' as u8, 'e' as u8, 't' as u8, 'i' as u8, 'm' as u8, 'e' as u8];
            proof {
                assert(a@ =~= header_name_bytes(HeaderName::AcceptDatetime));
            }
            if bytes_eq(bytes, a.as_slice()) {
                return Some(HeaderName::AcceptDatetime);
            }
        }
        {
            let a: [u8; 15] = ['A' as u8, 'c' as u8, 'c' as u8, 'e' as u8, 'p' as u8, 't' as u8, '-' as u8, 'E' as u8, 'n' as u8, 'c' as u8, 'o' as u8, 'd' as u8, 'i' as u8, 'n' as u8, 'g' as u8];
            proof {
                assert(a@ =~= header_name_bytes(HeaderName::AcceptEncoding));
            }
            if bytes_eq(bytes, a.as_slice()) {
                return Some(HeaderName::AcceptEncoding);
            }
        }
        {
            let a: [u8; 15] = ['A' as u8, 'c' as u8, 'c' as u8, 'e' as u8, 'p' as u8, 't' as u8, '-' as u8, 'L' as u8, 'a' as u8, 'n' as u8, 'g' as u8, 'u' as u8, 'a' as u8, 'g' as u8, 'e' as u8];
            proof {
                assert(a@ =~= header_name_bytes(HeaderName::AcceptLanguage));
            }
            if bytes_eq(bytes, a.as_slice()) {
                return Some(HeaderName::AcceptLanguage);
            }
        }
        {
            let a: [u8; 30] = ['A' as u8, 'c' as u8, 'c' as u8, 'e' as u8, 'p' as u8, 't' as u8, '-' as u8, 'C' as u8, 'o' as u8, 'n' as u8, 't' as u8, 'r' as u8, 'o' as u8, 'l' as u8, '-' as u8, 'S' as u8, 'e' as u8, 'q' as u8, 'u' as u8, 'e' as u8, 'n' as u8, 'c' as u8, 'e' as u8, '-' as u8, 'M' as u8, 'e' as u8, 't' as u8, 'h' as u8, 'o' as u8, 'd' as u8];
            proof {
                assert(a@ =~= header_name_bytes(HeaderName::AcceptCtrlSeqMethod));
            }
            if bytes_eq(bytes, a.as_slice()) {
                return Some(HeaderName::AcceptCtrlSeqMethod);
            }
        }
        {
            let a: [u8; 31] = ['A' as u8, 'c' as u8, 'c' as u8, 'e' as u8, 'p' as u8, 't' as u8, '-' as u8, 'C' as u8, 'o' as u8, 'n' as u8, 't' as u8, 'r' as u8, 'o' as u8, 'l' as u8, '-' as u8, 'S' as u8, 'e' as u8, 'q' as u8, 'u' as u8, 'e' as u8, 'n' as u8, 'c' as u8, 'e' as u8, '-' as u8, 'H' as u8, 'e' as u8, 'a' as u8, 'd' as u8, 'e' as u8, 'r' as u8, 's' as u8];
            proof {
                assert(a@ =~= header_name_bytes(HeaderName::AcceptCtrlSeqHeaders));
            }
            if bytes_eq(bytes, a.as_slice()) {
                return Some(HeaderName::AcceptCtrlSeqHeaders);
            }
        }
        {
            let a: [u8; 13] = ['A' as u8, 'u' as u8, 't' as u8, 'h' as u8, 'o' as u8, 'r' as u8, 'e' as u8, 'z' as u8, 'a' as u8, 't' as u8, 'i' as u8, 'o' as u8, 'n' as u8];
            proof {
                assert(a@ =~= header_name_bytes(HeaderName::Authorization));
            }
            if bytes_eq(bytes, a.as_slice()) {
                return Some(HeaderName::Authorization);
            }
        }
        {
            let a: [u8; 13] = ['C' as u8, 'a' as u8, 'c' as u8, 'h' as u8, 'e' as u8, '-' as u8, 'C' as u8, 'o' as u8, 'n' as u8, 't' as u8, 'r' as u8, 'o' as u8, 'l' as u8];
            proof {
                assert(a@ =~= header_name_bytes(HeaderName::CacheControl));
            }
            if bytes_eq(bytes, a.as_slice()) {
                return Some(HeaderName::CacheControl);
            }
        }
        {
            let a: [u8; 10] = ['C' as u8, 'o' as u8, 'n' as u8, 'n' as u8, 'e' as u8, 'c' as u8, 't' as u8, 'i' as u8, 'o' as u8, 'n' as u8];
            proof {
                assert(a@ =~= header_name_bytes(HeaderName::Connection));
            }
            if bytes_eq(bytes, a.as_slice()) {
                return Some(HeaderName::Connection);
            }
        }
        {
            let a: [u8; 16] = ['C' as u8, 'o' as u8, 'n' as u8, 't' as u8, 'e' as u8, 'n' as u8, 't' as u8, '-' as u8, 'E' as u8, 'n' as u8, 'c' as u8, 'o' as u8, 'd' as u8, 'i' as u8, 'n' as u8, 'g' as u8];
            proof {
                assert(a@ =~= header_name_bytes(HeaderName::ContentEncoding));
            }
            if bytes_eq(bytes, a.as_slice()) {
                return Some(HeaderName::ContentEncoding);
            }
        }
        {
            let a: [u8; 14] = ['C' as u8, 'o' as u8, 'n' as u8, 't' as u8, 'e' as u8, 'n' as u8, 't' as u8, '-' as u8, 'L' as u8, 'e' as u8, 'n' as u8, 'g' as u8, 't' as u8, 'h' as u8];
            proof {
                assert(a@ =~= header_name_bytes(HeaderName::ContentLength));
            }
            if bytes_eq(bytes, a.as_slice()) {
                return Some(HeaderName::ContentLength);
            }
        }
        {
            let a: [u8; 11] = ['C' as u8, 'o' as u8, 'n' as u8, 't' as u8, 'e' as u8, 'n' as u8, 't' as u8, '-' as u8, 'M' as u8, 'D' as u8, '5' as u8];
            proof {
                assert(a@ =~= header_name_bytes(HeaderName::ContentMD5));
            }
            if bytes_eq(bytes, a.as_slice()) {
                return Some(HeaderName::ContentMD5);
            }
        }
        {
            let a: [u8; 12] = ['C' as u8, 'o' as u8, 'n' as u8, 't' as u8, 'e' as u8, 'n' as u8, 't' as u8, '-' as u8, 'T' as u8, 'y' as u8, 'p' as u8, 'e' as u8];
            proof {
                assert(a@ =~= header_name_bytes(HeaderName::ContentType));
            }
            if bytes_eq(bytes, a.as_slice()) {
                return Some(HeaderName::ContentType);
            }
        }
        {
            let a: [u8; 6] = ['C' as u8, 'o' as u8, 'o' as u8, 'k' as u8, 'i' as u8, 'e' as u8];
            proof {
                assert(a@ =~= header_name_bytes(HeaderName::Cookie));
            }
            if bytes_eq(bytes, a.as_slice()) {
                return Some(HeaderName::Cookie);
            }
        }
        {
            let a: [u8; 10] = ['C' as u8, 'f' as u8, '-' as u8, 'V' as u8, 'i' as u8, 's' as u8, 'i' as u8, 't' as u8, 'o' as u8, 'r' as u8];
            proof {
                assert(a@ =~= header_name_bytes(HeaderName::CfVisitor));
            }
            if bytes_eq(bytes, a.as_slice()) {
                return Some(HeaderName::CfVisitor);
            }
        }
        {
            let a: [u8; 16] = ['C' as u8, 'f' as u8, '-' as u8, 'C' as u8, 'o' as u8, 'n' as u8, 'n' as u8, 'e' as u8, 'c' as u8, 't' as u8, 'i' as u8, 'o' as u8, 'n' as u8, '-' as u8, 'I' as u8, 'p' as u8];
            proof {
                assert(a@ =~= header_name_bytes(HeaderName::CfConnectionIp));
            }
            if bytes_eq(bytes, a.as_slice()) {
                return Some(HeaderName::CfConnectionIp);
            }
        }
        {
            let a: [u8; 12] = ['C' as u8, 'f' as u8, '-' as u8, 'I' as u8, 'p' as u8, 'c' as u8, 'o' as u8, 'u' as u8, 'n' as u8, 't' as u8, 'r' as u8, 'y' as u8];
            proof {
                assert(a@ =~= header_name_bytes(HeaderName::CfIpcountry));
            }
            if bytes_eq(bytes, a.as_slice()) {
                return Some(HeaderName::CfIpcountry);
            }
        }
        {
            let a: [u8; 6] = ['C' as u8, 'f' as u8, '-' as u8, 'R' as u8, 'a' as u8, 'y' as u8];
            proof {
                assert(a@ =~= header_name_bytes(HeaderName::CfRay));
            }
            if bytes_eq(bytes, a.as_slice()) {
                return Some(HeaderName::CfRay);
            }
        }
        {
            let a: [u8; 4] = ['D' as u8, 'a' as u8, 't' as u8, 'e' as u8];
            proof {
                assert(a@ =~= header_name_bytes(HeaderName::Date));
            }
            if bytes_eq(bytes, a.as_slice()) {
                return Some(HeaderName::Date);
            }
        }
        {
            let a: [u8; 6] = ['E' as u8, 'x' as u8, 'p' as u8, 'e' as u8, 'c' as u8, 't' as u8];
            proof {
                assert(a@ =~= header_name_bytes(HeaderName::Expect));
            }
            if bytes_eq(bytes, a.as_slice()) {
                return Some(HeaderName::Expect);
            }
        }
        {
            let a: [u8; 9] = ['F' as u8, 'o' as u8, 'r' as u8, 'w' as u8, 'a' as u8, 'r' as u8, 'd' as u8, 'e' as u8, 'd' as u8];
            proof {
                assert(a@ =~= header_name_bytes(HeaderName::Forwarded));
            }
            if bytes_eq(bytes, a.as_slice()) {
                return Some(HeaderName::Forwarded);
            }
        }
        {
            let a: [u8; 4] = ['F' as u8, 'r' as u8, 'o' as u8, 'm' as u8];
            proof {
                assert(a@ =~= header_name_bytes(HeaderName::From));
            }
            if bytes_eq(bytes, a.as_slice()) {
                return Some(HeaderName::From);
            }
        }
        {
            let a: [u8; 4] = ['H' as u8, 'o' as u8, 's' as u8, 't' as u8];
            proof {
                assert(a@ =~= header_name_bytes(HeaderName::Host));
            }
            if bytes_eq(bytes, a.as_slice()) {
                return Some(HeaderName::Host);
            }
        }
        {
            let a: [u8; 14] = ['H' as u8, 'T' as u8, 'T' as u8, 'P' as u8, '2' as u8, '-' as u8, 'S' as u8, 'e' as u8, 't' as u8, 't' as u8, 'i' as u8, 'n' as u8, 'g' as u8, 's' as u8];
            proof {
                assert(a@ =~= header_name_bytes(HeaderName::HTTP2Settings));
            }
            if bytes_eq(bytes, a.as_slice()) {
                return Some(HeaderName::HTTP2Settings);
            }
        }
        {
            let a: [u8; 8] = ['I' as u8, 'f' as u8, '-' as u8, 'M' as u8, 'a' as u8, 't' as u8, 'c' as u8, 'h' as u8];
            proof {
                assert(a@ =~= header_name_bytes(HeaderName::IfMatch));
            }
            if bytes_eq(bytes, a.as_slice()) {
                return Some(HeaderName::IfMatch);
            }
        }
        {
            let a: [u8; 17] = ['I' as u8, 'f' as u8, '-' as u8, 'M' as u8, 'o' as u8, 'd' as u8, 'i' as u8, 'f' as u8, 'i' as u8, 'e' as u8, 'd' as u8, '-' as u8, 'S' as u8, 'i' as u8, 'n' as u8, 'c' as u8, 'e' as u8];
            proof {
                assert(a@ =~= header_name_bytes(HeaderName::IfModifiedSince));
            }
            if bytes_eq(bytes, a.as_slice()) {
                return Some(HeaderName::IfModifiedSince);
            }
        }
        {
            let a: [u8; 13] = ['I' as u8, 'f' as u8, '-' as u8, 'N' as u8, 'o' as u8, 'n' as u8, 'e' as u8, '-' as u8, 'M' as u8, 'a' as u8, 't' as u8, 'c' as u8, 'h' as u8];
            proof {
                assert(a@ =~= header_name_bytes(HeaderName::IfNoneMatch));
            }
            if bytes_eq(bytes, a.as_slice()) {
                return Some(HeaderName::IfNoneMatch);
            }
        }
        {
            let a: [u8; 8] = ['I' as u8, 'f' as u8, '-' as u8, 'R' as u8, 'a' as u8, 'n' as u8, 'g' as u8, 'e' as u8];
            proof {
                assert(a@ =~= header_name_bytes(HeaderName::IfRange));
            }
            if bytes_eq(bytes, a.as_slice()) {
                return Some(HeaderName::IfRange);
            }
        }
        {
            let a: [u8; 19] = ['I' as u8, 'f' as u8, '-' as u8, 'U' as u8, 'n' as u8, 'm' as u8, 'o' as u8, 'd' as u8, 'i' as u8, 'f' as u8, 'i' as u8, 'e' as u8, 'd' as u8, '-' as u8, 'S' as u8, 'i' as u8, 'n' as u8, 'c' as u8, 'e' as u8];
            proof {
                assert(a@ =~= header_name_bytes(HeaderName::IfUnmodifiedSince));
            }
            if bytes_eq(bytes, a.as_slice()) {
                return Some(HeaderName::IfUnmodifiedSince);
            }
        }
        {
            let a: [u8; 12] = ['M' as u8, 'a' as u8, 'x' as u8, '-' as u8, 'F' as u8, 'o' as u8, 'r' as u8, 'w' as u8, 'a' as u8, 'r' as u8, 'd' as u8, 's' as u8];
            proof {
                assert(a@ =~= header_name_bytes(HeaderName::MaxForwards));
            }
            if bytes_eq(bytes, a.as_slice()) {
                return Some(HeaderName::MaxForwards);
            }
        }
        {
            let a: [u8; 6] = ['O' as u8, 'r' as u8, 'i' as u8, 'g' as u8, 'i' as u8, 'n' as u8];
            proof {
                assert(a@ =~= header_name_bytes(HeaderName::Origin));
            }
            if bytes_eq(bytes, a.as_slice()) {
                return Some(HeaderName::Origin);
            }
        }
        {
            let a: [u8; 6] = ['P' as u8, 'r' as u8, 'a' as u8, 'g' as u8, 'm' as u8, 'a' as u8];
            proof {
                assert(a@ =~= header_name_bytes(HeaderName::Pragma));
            }
            if bytes_eq(bytes, a.as_slice()) {
                return Some(HeaderName::Pragma);
            }
        }
        {
            let a: [u8; 6] = ['P' as u8, 'r' as u8, 'e' as u8, 'f' as u8, 'e' as u8, 'r' as u8];
            proof {
                assert(a@ =~= header_name_bytes(HeaderName::Prefer));
            }
            if bytes_eq(bytes, a.as_slice()) {
                return Some(HeaderName::Prefer);
            }
        }
        {
            let a: [u8; 19] = ['P' as u8, 'r' as u8, 'o' as u8, 'x' as u8, 'y' as u8, '-' as u8, 'A' as u8, 'u' as u8, 't' as u8, 'h' as u8, 'o' as u8, 'r' as u8, 'i' as u8, 'z' as u8, 'a' as u8, 't' as u8, 'i' as u8, 'o' as u8, 'n' as u8];
            proof {
                assert(a@ =~= header_name_bytes(HeaderName::ProxyAuthorization));
            }
            if bytes_eq(bytes, a.as_slice()) {
                return Some(HeaderName::ProxyAuthorization);
            }
        }
        {
            let a: [u8; 8] = ['P' as u8, 'r' as u8, 'i' as u8, 'o' as u8, 'r' as u8, 'i' as u8, 't' as u8, 'y' as u8];
            proof {
                assert(a@ =~= header_name_bytes(HeaderName::Priority));
            }
            if bytes_eq(bytes, a.as_slice()) {
                return Some(HeaderName::Priority);
            }
        }
        {
            let a: [u8; 5] = ['R' as u8, 'a' as u8, 'n' as u8, 'g' as u8, 'e' as u8];
            proof {
                assert(a@ =~= header_name_bytes(HeaderName::Range));
            }
            if bytes_eq(bytes, a.as_slice()) {
                return Some(HeaderName::Range);
            }
        }
        {
            let a: [u8; 7] = ['R' as u8, 'e' as u8, 'f' as u8, 'e' as u8, 'r' as u8, 'e' as u8, 'r' as u8];
            proof {
                assert(a@ =~= header_name_bytes(HeaderName::Referer));
            }
            if bytes_eq(bytes, a.as_slice()) {
                return Some(HeaderName::Referer);
            }
        }
        {
            let a: [u8; 2] = ['T' as u8, 'E' as u8];
            proof {
                assert(a@ =~= header_name_bytes(HeaderName::TE));
            }
            if bytes_eq(bytes, a.as_slice()) {
                return Some(HeaderName::TE);
            }
        }
        {
            let a: [u8; 7] = ['T' as u8, 'r' as u8, 'a' as u8, 'i' as u8, 'l' as u8, 'e' as u8, 'r' as u8];
            proof {
                assert(a@ =~= header_name_bytes(HeaderName::Trailer));
            }
            if bytes_eq(bytes, a.as_slice()) {
                return Some(HeaderName::Trailer);
            }
        }
        {
            let a: [u8; 17] = ['T' as u8, 'r' as u8, 'a' as u8, 'n' as u8, 's' as u8, 'f' as u8, 'e' as u8, 'r' as u8, '-' as u8, 'E' as u8, 'n' as u8, 'c' as u8, 'o' as u8, 'd' as u8, 'i' as u8, 'n' as u8, 'g' as u8];
            proof {
                assert(a@ =~= header_name_bytes(HeaderName::TransferEncoding));
            }
            if bytes_eq(bytes, a.as_slice()) {
                return Some(HeaderName::TransferEncoding);
            }
        }
        {
            let a: [u8; 10] = ['U' as u8, 's' as u8, 'e' as u8, 'r' as u8, '-' as u8, 'A' as u8, 'g' as u8, 'e' as u8, 'n' as u8, 't' as u8];
            proof {
                assert(a@ =~= header_name_bytes(HeaderName::UserAgent));
            }
            if bytes_eq(bytes, a.as_slice()) {
                return Some(HeaderName::UserAgent);
            }
        }
        {
            let a: [u8; 7] = ['U' as u8, 'p' as u8, 'g' as u8, 'r' as u8, 'a' as u8, 'd' as u8, 'e' as u8];
            proof {
                assert(a@ =~= header_name_bytes(HeaderName::Upgrade));
            }
            if bytes_eq(bytes, a.as_slice()) {
                return Some(HeaderName::Upgrade);
            }
        }
        {
            let a: [u8; 3] = ['V' as u8, 'i' as u8, 'a' as u8];
            proof {
                assert(a@ =~= header_name_bytes(HeaderName::Via));
            }
            if bytes_eq(bytes, a.as_slice()) {
                return Some(HeaderName::Via);
            }
        }
        {
            let a: [u8; 9] = ['s' as u8, 'e' as u8, 'c' as u8, '-' as u8, 'c' as u8, 'h' as u8, '-' as u8, 'u' as u8, 'a' as u8];
            proof {
                assert(a@ =~= header_name_bytes(HeaderName::SecChUa));
            }
            if bytes_eq(bytes, a.as_slice()) {
                return Some(HeaderName::SecChUa);
            }
        }
        {
            let a: [u8; 16] = ['s' as u8, 'e' as u8, 'c' as u8, '-' as u8, 'c' as u8, 'h' as u8, '-' as u8, 'u' as u8, 'a' as u8, '-' as u8, 'm' as u8, 'o' as u8, 'b' as u8, 'i' as u8, 'l' as u8, 'e' as u8];
            proof {
                assert(a@ =~= header_name_bytes(HeaderName::SecChUaMobile));
            }
            if bytes_eq(bytes, a.as_slice()) {
                return Some(HeaderName::SecChUaMobile);
            }
        }
        {
            let a: [u8; 18] = ['s' as u8, 'e' as u8, 'c' as u8, '-' as u8, 'c' as u8, 'h' as u8, '-' as u8, 'u' as u8, 'a' as u8, '-' as u8, 'p' as u8, 'l' as u8, 'a' as u8, 't' as u8, 'f' as u8, 'o' as u8, 'r' as u8, 'm' as u8];
            proof {
                assert(a@ =~= header_name_bytes(HeaderName::SecChUaPlatform));
            }
            if bytes_eq(bytes, a.as_slice()) {
                return Some(HeaderName::SecChUaPlatform);
            }
        }
        {
            let a: [u8; 14] = ['S' as u8, 'e' as u8, 'c' as u8, '-' as u8, 'F' as u8, 'e' as u8, 't' as u8, 'c' as u8, 'h' as u8, '-' as u8, 'D' as u8, 'e' as u8, 's' as u8, 't' as u8];
            proof {
                assert(a@ =~= header_name_bytes(HeaderName::SecFetchDest));
            }
            if bytes_eq(bytes, a.as_slice()) {
                return Some(HeaderName::SecFetchDest);
            }
        }
        {
            let a: [u8; 14] = ['S' as u8, 'e' as u8, 'c' as u8, '-' as u8, 'F' as u8, 'e' as u8, 't' as u8, 'c' as u8, 'h' as u8, '-' as u8, 'M' as u8, 'o' as u8, 'd' as u8, 'e' as u8];
            proof {
                assert(a@ =~= header_name_bytes(HeaderName::SecFetchMode));
            }
            if bytes_eq(bytes, a.as_slice()) {
                return Some(HeaderName::SecFetchMode);
            }
        }
        {
            let a: [u8; 14] = ['S' as u8, 'e' as u8, 'c' as u8, '-' as u8, 'F' as u8, 'e' as u8, 't' as u8, 'c' as u8, 'h' as u8, '-' as u8, 'S' as u8, 'i' as u8, 't' as u8, 'e' as u8];
            proof {
                assert(a@ =~= header_name_bytes(HeaderName::SecFetchSite));
            }
            if bytes_eq(bytes, a.as_slice()) {
                return Some(HeaderName::SecFetchSite);
            }
        }
        {
            let a: [u8; 14] = ['S' as u8, 'e' as u8, 'c' as u8, '-' as u8, 'F' as u8, 'e' as u8, 't' as u8, 'c' as u8, 'h' as u8, '-' as u8, 'U' as u8, 's' as u8, 'e' as u8, 'r' as u8];
            proof {
                assert(a@ =~= header_name_bytes(HeaderName::SecFetchUser));
            }
            if bytes_eq(bytes, a.as_slice()) {
                return Some(HeaderName::SecFetchUser);
            }
        }
        {
            let a: [u8; 7] = ['S' as u8, 'e' as u8, 'c' as u8, '-' as u8, 'G' as u8, 'P' as u8, 'C' as u8];
            proof {
                assert(a@ =~= header_name_bytes(HeaderName::SecGpc));
            }
            if bytes_eq(bytes, a.as_slice()) {
                return Some(HeaderName::SecGpc);
            }
        }
        {
            let a: [u8; 25] = ['U' as u8, 'p' as u8, 'g' as u8, 'r' as u8, 'a' as u8, 'd' as u8, 'e' as u8, '-' as u8, 'I' as u8, 'n' as u8, 's' as u8, 'e' as u8, 'c' as u8, 'u' as u8, 'r' as u8, 'e' as u8, '-' as u8, 'R' as u8, 'e' as u8, 'q' as u8, 'u' as u8, 'e' as u8, 's' as u8, 't' as u8, 's' as u8];
            proof {
                assert(a@ =~= header_name_bytes(HeaderName::UpgradeInsecureRequests));
            }
            if bytes_eq(bytes, a.as_slice()) {
                return Some(HeaderName::UpgradeInsecureRequests);
            }
        }
        {
            let a: [u8; 17] = ['X' as u8, '-' as u8, 'F' as u8, 'o' as u8, 'r' as u8, 'w' as u8, 'a' as u8, 'r' as u8, 'd' as u8, 'e' as u8, 'd' as u8, '-' as u8, 'P' as u8, 'r' as u8, 'o' as u8, 't' as u8, 'o' as u8];
            proof {
                assert(a@ =~= header_name_bytes(HeaderName::XForwardedProto));
            }
            if bytes_eq(bytes, a.as_slice()) {
                return Some(HeaderName::XForwardedProto);
            }
        }
        {
            let a: [u8; 7] = ['X' as u8, '-' as u8, 'H' as u8, 'T' as u8, 'T' as u8, 'P' as u8, 'S' as u8];
            proof {
                assert(a@ =~= header_name_bytes(HeaderName::XHTTPS));
            }
            if bytes_eq(bytes, a.as_slice()) {
                return Some(HeaderName::XHTTPS);
            }
        }
        None
    }
}

/// Every recognized name's wire bytes are nonempty and hold no whitespace,
/// no line feed, and no colon: a rendered header line therefore trims to
/// itself and splits at the `": "` the renderer wrote.
#[verifier::rlimit(100)]
pub proof fn lemma_name_bytes_wf(n: HeaderName)
    ensures
        header_name_bytes(n).len() > 0,
        forall|i: int|
            0 <= i < header_name_bytes(n).len() ==> {
                &&& (#[trigger] header_name_bytes(n)[i]) != 58
                &&& header_name_bytes(n)[i] != 10
                &&& header_name_bytes(n)[i] != 13
                &&& header_name_bytes(n)[i] != 32
                &&& !(9 <= header_name_bytes(n)[i] <= 13)
            },
{
    match n {
        HeaderName::AIM => {},
        HeaderName::Accept => {},
        HeaderName::AcceptCharset => {},
        HeaderName::AcceptDatetime => {},
        HeaderName::AcceptEncoding => {},
        HeaderName::AcceptLanguage => {},
        HeaderName::AcceptCtrlSeqMethod => {},
        HeaderName::AcceptCtrlSeqHeaders => {},
        HeaderName::Authorization => {},
        HeaderName::CacheControl => {},
        HeaderName::Connection => {},
        HeaderName::ContentEncoding => {},
        HeaderName::ContentLength => {},
        HeaderName::ContentMD5 => {},
        HeaderName::ContentType => {},
        HeaderName::Cookie => {},
        HeaderName::CfVisitor => {},
        HeaderName::CfConnectionIp => {},
        HeaderName::CfIpcountry => {},
        HeaderName::CfRay => {},
        HeaderName::Date => {},
        HeaderName::Expect => {},
        HeaderName::Forwarded => {},
        HeaderName::From => {},
        HeaderName::Host => {},
        HeaderName::HTTP2Settings => {},
        HeaderName::IfMatch => {},
        HeaderName::IfModifiedSince => {},
        HeaderName::IfNoneMatch => {},
        HeaderName::IfRange => {},
        HeaderName::IfUnmodifiedSince => {},
        HeaderName::MaxForwards => {},
        HeaderName::Origin => {},
        HeaderName::Pragma => {},
        HeaderName::Prefer => {},
        HeaderName::ProxyAuthorization => {},
        HeaderName::Priority => {},
        HeaderName::Range => {},
        HeaderName::Referer => {},
        HeaderName::TE => {},
        HeaderName::Trailer => {},
        HeaderName::TransferEncoding => {},
        HeaderName::UserAgent => {},
        HeaderName::Upgrade => {},
        HeaderName::Via => {},
        HeaderName::SecChUa => {},
        HeaderName::SecChUaMobile => {},
        HeaderName::SecChUaPlatform => {},
        HeaderName::SecFetchDest => {},
        HeaderName::SecFetchMode => {},
        HeaderName::SecFetchSite => {},
        HeaderName::SecFetchUser => {},
        HeaderName::SecGpc => {},
        HeaderName::UpgradeInsecureRequests => {},
        HeaderName::XForwardedProto => {},
        HeaderName::XHTTPS => {},
    }
}

/// The length of each recognized name's wire bytes.
pub broadcast proof fn lemma_name_bytes_len(n: HeaderName)
    ensures
        #![trigger header_name_bytes(n)]
        header_name_bytes(n).len() == (match n {
            HeaderName::AIM => 4nat,
            HeaderName::Accept => 6nat,
            HeaderName::AcceptCharset => 14nat,
            HeaderName::AcceptDatetime => 15nat,
            HeaderName::AcceptEncoding => 15nat,
            HeaderName::AcceptLanguage => 15nat,
            HeaderName::AcceptCtrlSeqMethod => 30nat,
            HeaderName::AcceptCtrlSeqHeaders => 31nat,
            HeaderName::Authorization => 13nat,
            HeaderName::CacheControl => 13nat,
            HeaderName::Connection => 10nat,
            HeaderName::ContentEncoding => 16nat,
            HeaderName::ContentLength => 14nat,
            HeaderName::ContentMD5 => 11nat,
            HeaderName::ContentType => 12nat,
            HeaderName::Cookie => 6nat,
            HeaderName::CfVisitor => 10nat,
            HeaderName::CfConnectionIp => 16nat,
            HeaderName::CfIpcountry => 12nat,
            HeaderName::CfRay => 6nat,
            HeaderName::Date => 4nat,
            HeaderName::Expect => 6nat,
            HeaderName::Forwarded => 9nat,
            HeaderName::From => 4nat,
            HeaderName::Host => 4nat,
            HeaderName::HTTP2Settings => 14nat,
            HeaderName::IfMatch => 8nat,
            HeaderName::IfModifiedSince => 17nat,
            HeaderName::IfNoneMatch => 13nat,
            HeaderName::IfRange => 8nat,
            HeaderName::IfUnmodifiedSince => 19nat,
            HeaderName::MaxForwards => 12nat,
            HeaderName::Origin => 6nat,
            HeaderName::Pragma => 6nat,
            HeaderName::Prefer => 6nat,
            HeaderName::ProxyAuthorization => 19nat,
            HeaderName::Priority => 8nat,
            HeaderName::Range => 5nat,
            HeaderName::Referer => 7nat,
            HeaderName::TE => 2nat,
            HeaderName::Trailer => 7nat,
            HeaderName::TransferEncoding => 17nat,
            HeaderName::UserAgent => 10nat,
            HeaderName::Upgrade => 7nat,
            HeaderName::Via => 3nat,
            HeaderName::SecChUa => 9nat,
            HeaderName::SecChUaMobile => 16nat,
            HeaderName::SecChUaPlatform => 18nat,
            HeaderName::SecFetchDest => 14nat,
            HeaderName::SecFetchMode => 14nat,
            HeaderName::SecFetchSite => 14nat,
            HeaderName::SecFetchUser => 14nat,
            HeaderName::SecGpc => 7nat,
            HeaderName::UpgradeInsecureRequests => 25nat,
            HeaderName::XForwardedProto => 17nat,
            HeaderName::XHTTPS => 7nat,
        }),
{
    match n {
        HeaderName::AIM => {
            assert(header_name_bytes(HeaderName::AIM).len() == 4);
        },
        HeaderName::Accept => {
            assert(header_name_bytes(HeaderName::Accept).len() == 6);
        },
        HeaderName::AcceptCharset => {
            assert(header_name_bytes(HeaderName::AcceptCharset).len() == 14);
        },
        HeaderName::AcceptDatetime => {
            assert(header_name_bytes(HeaderName::AcceptDatetime).len() == 15);
        },
        HeaderName::AcceptEncoding => {
            assert(header_name_bytes(HeaderName::AcceptEncoding).len() == 15);
        },
        HeaderName::AcceptLanguage => {
            assert(header_name_bytes(HeaderName::AcceptLanguage).len() == 15);
        },
        HeaderName::AcceptCtrlSeqMethod => {
            assert(header_name_bytes(HeaderName::AcceptCtrlSeqMethod).len() == 30);
        },
        HeaderName::AcceptCtrlSeqHeaders => {
            assert(header_name_bytes(HeaderName::AcceptCtrlSeqHeaders).len() == 31);
        },
        HeaderName::Authorization => {
            assert(header_name_bytes(HeaderName::Authorization).len() == 13);
        },
        HeaderName::CacheControl => {
            assert(header_name_bytes(HeaderName::CacheControl).len() == 13);
        },
        HeaderName::Connection => {
            assert(header_name_bytes(HeaderName::Connection).len() == 10);
        },
        HeaderName::ContentEncoding => {
            assert(header_name_bytes(HeaderName::ContentEncoding).len() == 16);
        },
        HeaderName::ContentLength => {
            assert(header_name_bytes(HeaderName::ContentLength).len() == 14);
        },
        HeaderName::ContentMD5 => {
            assert(header_name_bytes(HeaderName::ContentMD5).len() == 11);
        },
        HeaderName::ContentType => {
            assert(header_name_bytes(HeaderName::ContentType).len() == 12);
        },
        HeaderName::Cookie => {
            assert(header_name_bytes(HeaderName::Cookie).len() == 6);
        },
        HeaderName::CfVisitor => {
            assert(header_name_bytes(HeaderName::CfVisitor).len() == 10);
        },
        HeaderName::CfConnectionIp => {
            assert(header_name_bytes(HeaderName::CfConnectionIp).len() == 16);
        },
        HeaderName::CfIpcountry => {
            assert(header_name_bytes(HeaderName::CfIpcountry).len() == 12);
        },
        HeaderName::CfRay => {
            assert(header_name_bytes(HeaderName::CfRay).len() == 6);
        },
        HeaderName::Date => {
            assert(header_name_bytes(HeaderName::Date).len() == 4);
        },
        HeaderName::Expect => {
            assert(header_name_bytes(HeaderName::Expect).len() == 6);
        },
        HeaderName::Forwarded => {
            assert(header_name_bytes(HeaderName::Forwarded).len() == 9);
        },
        HeaderName::From => {
            assert(header_name_bytes(HeaderName::From).len() == 4);
        },
        HeaderName::Host => {
            assert(header_name_bytes(HeaderName::Host).len() == 4);
        },
        HeaderName::HTTP2Settings => {
            assert(header_name_bytes(HeaderName::HTTP2Settings).len() == 14);
        },
        HeaderName::IfMatch => {
            assert(header_name_bytes(HeaderName::IfMatch).len() == 8);
        },
        HeaderName::IfModifiedSince => {
            assert(header_name_bytes(HeaderName::IfModifiedSince).len() == 17);
        },
        HeaderName::IfNoneMatch => {
            assert(header_name_bytes(HeaderName::IfNoneMatch).len() == 13);
        },
        HeaderName::IfRange => {
            assert(header_name_bytes(HeaderName::IfRange).len() == 8);
        },
        HeaderName::IfUnmodifiedSince => {
            assert(header_name_bytes(HeaderName::IfUnmodifiedSince).len() == 19);
        },
        HeaderName::MaxForwards => {
            assert(header_name_bytes(HeaderName::MaxForwards).len() == 12);
        },
        HeaderName::Origin => {
            assert(header_name_bytes(HeaderName::Origin).len() == 6);
        },
        HeaderName::Pragma => {
            assert(header_name_bytes(HeaderName::Pragma).len() == 6);
        },
        HeaderName::Prefer => {
            assert(header_name_bytes(HeaderName::Prefer).len() == 6);
        },
        HeaderName::ProxyAuthorization => {
            assert(header_name_bytes(HeaderName::ProxyAuthorization).len() == 19);
        },
        HeaderName::Priority => {
            assert(header_name_bytes(HeaderName::Priority).len() == 8);
        },
        HeaderName::Range => {
            assert(header_name_bytes(HeaderName::Range).len() == 5);
        },
        HeaderName::Referer => {
            assert(header_name_bytes(HeaderName::Referer).len() == 7);
        },
        HeaderName::TE => {
            assert(header_name_bytes(HeaderName::TE).len() == 2);
        },
        HeaderName::Trailer => {
            assert(header_name_bytes(HeaderName::Trailer).len() == 7);
        },
        HeaderName::TransferEncoding => {
            assert(header_name_bytes(HeaderName::TransferEncoding).len() == 17);
        },
        HeaderName::UserAgent => {
            assert(header_name_bytes(HeaderName::UserAgent).len() == 10);
        },
        HeaderName::Upgrade => {
            assert(header_name_bytes(HeaderName::Upgrade).len() == 7);
        },
        HeaderName::Via => {
            assert(header_name_bytes(HeaderName::Via).len() == 3);
        },
        HeaderName::SecChUa => {
            assert(header_name_bytes(HeaderName::SecChUa).len() == 9);
        },
        HeaderName::SecChUaMobile => {
            assert(header_name_bytes(HeaderName::SecChUaMobile).len() == 16);
        },
        HeaderName::SecChUaPlatform => {
            assert(header_name_bytes(HeaderName::SecChUaPlatform).len() == 18);
        },
        HeaderName::SecFetchDest => {
            assert(header_name_bytes(HeaderName::SecFetchDest).len() == 14);
        },
        HeaderName::SecFetchMode => {
            assert(header_name_bytes(HeaderName::SecFetchMode).len() == 14);
        },
        HeaderName::SecFetchSite => {
            assert(header_name_bytes(HeaderName::SecFetchSite).len() == 14);
        },
        HeaderName::SecFetchUser => {
            assert(header_name_bytes(HeaderName::SecFetchUser).len() == 14);
        },
        HeaderName::SecGpc => {
            assert(header_name_bytes(HeaderName::SecGpc).len() == 7);
        },
        HeaderName::UpgradeInsecureRequests => {
            assert(header_name_bytes(HeaderName::UpgradeInsecureRequests).len() == 25);
        },
        HeaderName::XForwardedProto => {
            assert(header_name_bytes(HeaderName::XForwardedProto).len() == 17);
        },
        HeaderName::XHTTPS => {
            assert(header_name_bytes(HeaderName::XHTTPS).len() == 7);
        },
    }
}

/// Looking a recognized name's own wire bytes up in the table finds exactly
/// that name: the name table round trip.
#[verifier::rlimit(100)]
pub proof fn lemma_name_bytes_roundtrip(n: HeaderName)
    ensures
        spec_header_name_of(header_name_bytes(n)) == Some(n),
{
    broadcast use lemma_name_bytes_len;

    match n {
        HeaderName::AIM => {},
        HeaderName::Accept => {},
        HeaderName::AcceptCharset => {},
        HeaderName::AcceptDatetime => {},
        HeaderName::AcceptEncoding => {
            assert(header_name_bytes(HeaderName::AcceptEncoding)[7] != header_name_bytes(
                HeaderName::AcceptDatetime,
            )[7]);
        },
        HeaderName::AcceptLanguage => {
            assert(header_name_bytes(HeaderName::AcceptLanguage)[7] != header_name_bytes(
                HeaderName::AcceptDatetime,
            )[7]);
            assert(header_name_bytes(HeaderName::AcceptLanguage)[7] != header_name_bytes(
                HeaderName::AcceptEncoding,
            )[7]);
        },
        HeaderName::AcceptCtrlSeqMethod => {},
        HeaderName::AcceptCtrlSeqHeaders => {},
        HeaderName::Authorization => {},
        HeaderName::CacheControl => {
            assert(header_name_bytes(HeaderName::CacheControl)[0] != header_name_bytes(
                HeaderName::Authorization,
            )[0]);
        },
        HeaderName::Connection => {},
        HeaderName::ContentEncoding => {},
        HeaderName::ContentLength => {
            assert(header_name_bytes(HeaderName::ContentLength)[0] != header_name_bytes(
                HeaderName::AcceptCharset,
            )[0]);
        },
        HeaderName::ContentMD5 => {},
        HeaderName::ContentType => {},
        HeaderName::Cookie => {
            assert(header_name_bytes(HeaderName::Cookie)[0] != header_name_bytes(
                HeaderName::Accept,
            )[0]);
        },
        HeaderName::CfVisitor => {
            assert(header_name_bytes(HeaderName::CfVisitor)[1] != header_name_bytes(
                HeaderName::Connection,
            )[1]);
        },
        HeaderName::CfConnectionIp => {
            assert(header_name_bytes(HeaderName::CfConnectionIp)[1] != header_name_bytes(
                HeaderName::ContentEncoding,
            )[1]);
        },
        HeaderName::CfIpcountry => {
            assert(header_name_bytes(HeaderName::CfIpcountry)[1] != header_name_bytes(
                HeaderName::ContentType,
            )[1]);
        },
        HeaderName::CfRay => {
            assert(header_name_bytes(HeaderName::CfRay)[0] != header_name_bytes(
                HeaderName::Accept,
            )[0]);
            assert(header_name_bytes(HeaderName::CfRay)[1] != header_name_bytes(
                HeaderName::Cookie,
            )[1]);
        },
        HeaderName::Date => {
            assert(header_name_bytes(HeaderName::Date)[0] != header_name_bytes(
                HeaderName::AIM,
            )[0]);
        },
        HeaderName::Expect => {
            assert(header_name_bytes(HeaderName::Expect)[0] != header_name_bytes(
                HeaderName::Accept,
            )[0]);
            assert(header_name_bytes(HeaderName::Expect)[0] != header_name_bytes(
                HeaderName::Cookie,
            )[0]);
            assert(header_name_bytes(HeaderName::Expect)[0] != header_name_bytes(
                HeaderName::CfRay,
            )[0]);
        },
        HeaderName::Forwarded => {},
        HeaderName::From => {
            assert(header_name_bytes(HeaderName::From)[0] != header_name_bytes(
                HeaderName::AIM,
            )[0]);
            assert(header_name_bytes(HeaderName::From)[0] != header_name_bytes(
                HeaderName::Date,
            )[0]);
        },
        HeaderName::Host => {
            assert(header_name_bytes(HeaderName::Host)[0] != header_name_bytes(
                HeaderName::AIM,
            )[0]);
            assert(header_name_bytes(HeaderName::Host)[0] != header_name_bytes(
                HeaderName::Date,
            )[0]);
            assert(header_name_bytes(HeaderName::Host)[0] != header_name_bytes(
                HeaderName::From,
            )[0]);
        },
        HeaderName::HTTP2Settings => {
            assert(header_name_bytes(HeaderName::HTTP2Settings)[0] != header_name_bytes(
                HeaderName::AcceptCharset,
            )[0]);
            assert(header_name_bytes(HeaderName::HTTP2Settings)[0] != header_name_bytes(
                HeaderName::ContentLength,
            )[0]);
        },
        HeaderName::IfMatch => {},
        HeaderName::IfModifiedSince => {},
        HeaderName::IfNoneMatch => {
            assert(header_name_bytes(HeaderName::IfNoneMatch)[0] != header_name_bytes(
                HeaderName::Authorization,
            )[0]);
            assert(header_name_bytes(HeaderName::IfNoneMatch)[0] != header_name_bytes(
                HeaderName::CacheControl,
            )[0]);
        },
        HeaderName::IfRange => {
            assert(header_name_bytes(HeaderName::IfRange)[3] != header_name_bytes(
                HeaderName::IfMatch,
            )[3]);
        },
        HeaderName::IfUnmodifiedSince => {},
        HeaderName::MaxForwards => {
            assert(header_name_bytes(HeaderName::MaxForwards)[0] != header_name_bytes(
                HeaderName::ContentType,
            )[0]);
            assert(header_name_bytes(HeaderName::MaxForwards)[0] != header_name_bytes(
                HeaderName::CfIpcountry,
            )[0]);
        },
        HeaderName::Origin => {
            assert(header_name_bytes(HeaderName::Origin)[0] != header_name_bytes(
                HeaderName::Accept,
            )[0]);
            assert(header_name_bytes(HeaderName::Origin)[0] != header_name_bytes(
                HeaderName::Cookie,
            )[0]);
            assert(header_name_bytes(HeaderName::Origin)[0] != header_name_bytes(
                HeaderName::CfRay,
            )[0]);
            assert(header_name_bytes(HeaderName::Origin)[0] != header_name_bytes(
                HeaderName::Expect,
            )[0]);
        },
        HeaderName::Pragma => {
            assert(header_name_bytes(HeaderName::Pragma)[0] != header_name_bytes(
                HeaderName::Accept,
            )[0]);
            assert(header_name_bytes(HeaderName::Pragma)[0] != header_name_bytes(
                HeaderName::Cookie,
            )[0]);
            assert(header_name_bytes(HeaderName::Pragma)[0] != header_name_bytes(
                HeaderName::CfRay,
            )[0]);
            assert(header_name_bytes(HeaderName::Pragma)[0] != header_name_bytes(
                HeaderName::Expect,
            )[0]);
            assert(header_name_bytes(HeaderName::Pragma)[0] != header_name_bytes(
                HeaderName::Origin,
            )[0]);
        },
        HeaderName::Prefer => {
            assert(header_name_bytes(HeaderName::Prefer)[0] != header_name_bytes(
                HeaderName::Accept,
            )[0]);
            assert(header_name_bytes(HeaderName::Prefer)[0] != header_name_bytes(
                HeaderName::Cookie,
            )[0]);
            assert(header_name_bytes(HeaderName::Prefer)[0] != header_name_bytes(
                HeaderName::CfRay,
            )[0]);
            assert(header_name_bytes(HeaderName::Prefer)[0] != header_name_bytes(
                HeaderName::Expect,
            )[0]);
            assert(header_name_bytes(HeaderName::Prefer)[0] != header_name_bytes(
                HeaderName::Origin,
            )[0]);
            assert(header_name_bytes(HeaderName::Prefer)[2] != header_name_bytes(
                HeaderName::Pragma,
            )[2]);
        },
        HeaderName::ProxyAuthorization => {
            assert(header_name_bytes(HeaderName::ProxyAuthorization)[0] != header_name_bytes(
                HeaderName::IfUnmodifiedSince,
            )[0]);
        },
        HeaderName::Priority => {
            assert(header_name_bytes(HeaderName::Priority)[0] != header_name_bytes(
                HeaderName::IfMatch,
            )[0]);
            assert(header_name_bytes(HeaderName::Priority)[0] != header_name_bytes(
                HeaderName::IfRange,
            )[0]);
        },
        HeaderName::Range => {},
        HeaderName::Referer => {},
        HeaderName::TE => {},
        HeaderName::Trailer => {
            assert(header_name_bytes(HeaderName::Trailer)[0] != header_name_bytes(
                HeaderName::Referer,
            )[0]);
        },
        HeaderName::TransferEncoding => {
            assert(header_name_bytes(HeaderName::TransferEncoding)[0] != header_name_bytes(
                HeaderName::IfModifiedSince,
            )[0]);
        },
        HeaderName::UserAgent => {
            assert(header_name_bytes(HeaderName::UserAgent)[0] != header_name_bytes(
                HeaderName::Connection,
            )[0]);
            assert(header_name_bytes(HeaderName::UserAgent)[0] != header_name_bytes(
                HeaderName::CfVisitor,
            )[0]);
        },
        HeaderName::Upgrade => {
            assert(header_name_bytes(HeaderName::Upgrade)[0] != header_name_bytes(
                HeaderName::Referer,
            )[0]);
            assert(header_name_bytes(HeaderName::Upgrade)[0] != header_name_bytes(
                HeaderName::Trailer,
            )[0]);
        },
        HeaderName::Via => {},
        HeaderName::SecChUa => {
            assert(header_name_bytes(HeaderName::SecChUa)[0] != header_name_bytes(
                HeaderName::Forwarded,
            )[0]);
        },
        HeaderName::SecChUaMobile => {
            assert(header_name_bytes(HeaderName::SecChUaMobile)[0] != header_name_bytes(
                HeaderName::ContentEncoding,
            )[0]);
            assert(header_name_bytes(HeaderName::SecChUaMobile)[0] != header_name_bytes(
                HeaderName::CfConnectionIp,
            )[0]);
        },
        HeaderName::SecChUaPlatform => {},
        HeaderName::SecFetchDest => {
            assert(header_name_bytes(HeaderName::SecFetchDest)[0] != header_name_bytes(
                HeaderName::AcceptCharset,
            )[0]);
            assert(header_name_bytes(HeaderName::SecFetchDest)[0] != header_name_bytes(
                HeaderName::ContentLength,
            )[0]);
            assert(header_name_bytes(HeaderName::SecFetchDest)[0] != header_name_bytes(
                HeaderName::HTTP2Settings,
            )[0]);
        },
        HeaderName::SecFetchMode => {
            assert(header_name_bytes(HeaderName::SecFetchMode)[0] != header_name_bytes(
                HeaderName::AcceptCharset,
            )[0]);
            assert(header_name_bytes(HeaderName::SecFetchMode)[0] != header_name_bytes(
                HeaderName::ContentLength,
            )[0]);
            assert(header_name_bytes(HeaderName::SecFetchMode)[0] != header_name_bytes(
                HeaderName::HTTP2Settings,
            )[0]);
            assert(header_name_bytes(HeaderName::SecFetchMode)[10] != header_name_bytes(
                HeaderName::SecFetchDest,
            )[10]);
        },
        HeaderName::SecFetchSite => {
            assert(header_name_bytes(HeaderName::SecFetchSite)[0] != header_name_bytes(
                HeaderName::AcceptCharset,
            )[0]);
            assert(header_name_bytes(HeaderName::SecFetchSite)[0] != header_name_bytes(
                HeaderName::ContentLength,
            )[0]);
            assert(header_name_bytes(HeaderName::SecFetchSite)[0] != header_name_bytes(
                HeaderName::HTTP2Settings,
            )[0]);
            assert(header_name_bytes(HeaderName::SecFetchSite)[10] != header_name_bytes(
                HeaderName::SecFetchDest,
            )[10]);
            assert(header_name_bytes(HeaderName::SecFetchSite)[10] != header_name_bytes(
                HeaderName::SecFetchMode,
            )[10]);
        },
        HeaderName::SecFetchUser => {
            assert(header_name_bytes(HeaderName::SecFetchUser)[0] != header_name_bytes(
                HeaderName::AcceptCharset,
            )[0]);
            assert(header_name_bytes(HeaderName::SecFetchUser)[0] != header_name_bytes(
                HeaderName::ContentLength,
            )[0]);
            assert(header_name_bytes(HeaderName::SecFetchUser)[0] != header_name_bytes(
                HeaderName::HTTP2Settings,
            )[0]);
            assert(header_name_bytes(HeaderName::SecFetchUser)[10] != header_name_bytes(
                HeaderName::SecFetchDest,
            )[10]);
            assert(header_name_bytes(HeaderName::SecFetchUser)[10] != header_name_bytes(
                HeaderName::SecFetchMode,
            )[10]);
            assert(header_name_bytes(HeaderName::SecFetchUser)[10] != header_name_bytes(
                HeaderName::SecFetchSite,
            )[10]);
        },
        HeaderName::SecGpc => {
            assert(header_name_bytes(HeaderName::SecGpc)[0] != header_name_bytes(
                HeaderName::Referer,
            )[0]);
            assert(header_name_bytes(HeaderName::SecGpc)[0] != header_name_bytes(
                HeaderName::Trailer,
            )[0]);
            assert(header_name_bytes(HeaderName::SecGpc)[0] != header_name_bytes(
                HeaderName::Upgrade,
            )[0]);
        },
        HeaderName::UpgradeInsecureRequests => {},
        HeaderName::XForwardedProto => {
            assert(header_name_bytes(HeaderName::XForwardedProto)[0] != header_name_bytes(
                HeaderName::IfModifiedSince,
            )[0]);
            assert(header_name_bytes(HeaderName::XForwardedProto)[0] != header_name_bytes(
                HeaderName::TransferEncoding,
            )[0]);
        },
        HeaderName::XHTTPS => {
            assert(header_name_bytes(HeaderName::XHTTPS)[0] != header_name_bytes(
                HeaderName::Referer,
            )[0]);
            assert(header_name_bytes(HeaderName::XHTTPS)[0] != header_name_bytes(
                HeaderName::Trailer,
            )[0]);
            assert(header_name_bytes(HeaderName::XHTTPS)[0] != header_name_bytes(
                HeaderName::Upgrade,
            )[0]);
            assert(header_name_bytes(HeaderName::XHTTPS)[0] != header_name_bytes(
                HeaderName::SecGpc,
            )[0]);
        },
    }
}


} // verus!
