//! Tests for the message model: methods, versions, status codes, URIs,
//! header names, header values and the header map.

use tiny_http::error::{
    Error, ErrorKind, InvalidBody, InvalidMethod, InvalidStatusCode, InvalidUri, InvalidVersion,
    NoErrorHandler,
};
use tiny_http::header::name::HeaderName;
use tiny_http::header::value::HeaderValue;
use tiny_http::header::HeaderMap;
use tiny_http::method::Method;
use tiny_http::status::{canonical_reason, StatusCode};
use tiny_http::uri::Uri;
use tiny_http::version::Version;

#[test]
fn method_tokens() {
    assert_eq!(Method::GET.as_str(), "GET");
    assert_eq!(Method::POST.as_str(), "POST");
    assert_eq!(Method::from_bytes(b"GET").unwrap(), Method::Get);
    assert_eq!(Method::from_bytes(b"POST").unwrap(), Method::Post);
    let err = Method::from_bytes(b"PATCH").unwrap_err();
    assert_eq!(err.kind_of(), ErrorKind::Method(InvalidMethod));
    let err = Method::from_bytes(b"get").unwrap_err();
    assert_eq!(err.kind_of(), ErrorKind::Method(InvalidMethod));
}

#[test]
fn version_tokens() {
    assert_eq!(Version::HTTP_11.as_str(), "HTTP/1.1");
    assert_eq!(Version::HTTP_2.as_str(), "HTTP/2.0");
    assert_eq!(Version::from_bytes(b"HTTP/1.1").unwrap(), Version::Http11);
    assert_eq!(Version::from_bytes(b"HTTP/2.0").unwrap(), Version::Http2);
    let err = Version::from_bytes(b"HTTP/1.0").unwrap_err();
    assert_eq!(err.kind_of(), ErrorKind::Version(InvalidVersion));
}

#[test]
fn status_codes_and_reasons() {
    let ok = StatusCode::from_u16(200).unwrap();
    assert_eq!(ok.code(), 200);
    assert_eq!(ok.msg(), Some("OK"));
    let created = StatusCode::from_u16(201).unwrap();
    assert_eq!(created.msg(), Some("Created"));
    let not_found = StatusCode::from_u16(404).unwrap();
    assert_eq!(not_found.msg(), Some("Not Found"));
    let teapot = StatusCode::from_u16(418).unwrap();
    assert_eq!(teapot.code(), 418);
    assert_eq!(teapot.msg(), None);
    let err = StatusCode::from_u16(0).unwrap_err();
    assert_eq!(err.kind_of(), ErrorKind::StatusCode(InvalidStatusCode));
    assert_eq!(canonical_reason(200), Some("OK"));
    assert_eq!(canonical_reason(500), None);
}

#[test]
fn uri_canonicalization() {
    assert_eq!(Uri::new("/files/a.txt").as_bytes(), b"/files/a.txt");
    assert_eq!(Uri::new("files/a.txt").as_bytes(), b"/files/a.txt");
    assert_eq!(Uri::new("").as_bytes(), b"/");
    let default_uri: Uri = Default::default();
    assert_eq!(default_uri.as_bytes(), b"/");
    assert!(Uri::new("/a") == Uri::new("a"));
    assert!(Uri::new("/a") != Uri::new("/b"));
}

#[test]
fn uri_from_wire_is_verbatim() {
    let u = Uri::from_wire(b"echo/x".to_vec());
    assert_eq!(u.as_bytes(), b"echo/x");
}

#[test]
fn header_name_table() {
    assert_eq!(
        HeaderName::from_bytes(b"Content-Length"),
        Some(HeaderName::ContentLength)
    );
    assert_eq!(
        HeaderName::from_bytes(b"User-Agent"),
        Some(HeaderName::UserAgent)
    );
    assert_eq!(HeaderName::from_bytes(b"content-length"), None);
    assert_eq!(HeaderName::from_bytes(b"X-Custom"), None);
    assert_eq!(HeaderName::ContentType.as_str(), "Content-Type");
    assert_eq!(HeaderName::UserAgent.wire_bytes(), b"User-Agent".to_vec());
}

#[test]
fn header_value_round_trip() {
    let v = HeaderValue::from_slice(b"curl/8.0");
    assert_eq!(v.as_slice(), b"curl/8.0");
    assert_eq!(v.as_bytes(), &bytes::Bytes::from_static(b"curl/8.0"));
    assert_eq!(v.to_text(), "curl/8.0");
    let cloned = v.clone();
    assert_eq!(cloned.as_slice(), b"curl/8.0");
}

#[test]
fn header_value_arbitrary_bytes() {
    let raw: Vec<u8> = vec![0, 255, 128, 10, 13];
    let v = HeaderValue::from_slice(&raw);
    assert_eq!(v.as_slice(), raw.as_slice());
}

#[test]
fn header_map_insert_then_get_returns_value() {
    let mut m = HeaderMap::new();
    assert_eq!(m.len(), 0);
    m.insert(b"Host", b"example.com").unwrap();
    m.insert(b"User-Agent", &[0u8, 254, 7]).unwrap();
    let host = m.get(&HeaderName::Host).unwrap();
    assert_eq!(host.as_slice(), b"example.com");
    let agent = m.get(&HeaderName::UserAgent).unwrap();
    assert_eq!(agent.as_slice(), &[0u8, 254, 7]);
    assert!(m.get(&HeaderName::Cookie).is_none());
}

#[test]
fn header_map_insert_overwrites() {
    let mut m = HeaderMap::new();
    assert!(m.insert(b"Host", b"one").unwrap().is_none());
    let prev = m.insert(b"Host", b"two").unwrap().unwrap();
    assert_eq!(prev.as_slice(), b"one");
    assert_eq!(m.get(&HeaderName::Host).unwrap().as_slice(), b"two");
    assert_eq!(m.len(), 1);
}

#[test]
fn header_map_rejects_unrecognized_names() {
    let mut m = HeaderMap::new();
    let err = m.insert(b"X-Custom", b"1").unwrap_err();
    assert_eq!(
        err.kind_of(),
        ErrorKind::Header(tiny_http::error::InvalidHeaderName)
    );
    assert_eq!(m.len(), 0);
}

#[test]
fn unit_errors_convert_to_error() {
    assert_eq!(Error::from(InvalidUri).kind_of(), ErrorKind::Uri(InvalidUri));
    assert_eq!(Error::from(InvalidBody).kind_of(), ErrorKind::Body(InvalidBody));
    assert_eq!(
        Error::from(NoErrorHandler).kind_of(),
        ErrorKind::ErrorHandler(NoErrorHandler)
    );
    let e = Error::of_kind(ErrorKind::Method(InvalidMethod));
    assert_eq!(e.kind_of(), ErrorKind::Method(InvalidMethod));
}
