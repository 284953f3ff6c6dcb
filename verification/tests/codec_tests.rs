//! Tests for the wire codec: decoding requests, encoding responses and
//! requests, numerals, and framing.

use tiny_http::bytes_util::{parse_dec_usize, u64_to_dec};
use tiny_http::codec::{decode_request, encode_request, encode_response, find_blank_line};
use tiny_http::error::{
    ErrorKind, InvalidBody, InvalidHeaderName, InvalidMethod, InvalidStatusCode, InvalidUri,
    InvalidVersion,
};
use tiny_http::header::name::HeaderName;
use tiny_http::method::Method;
use tiny_http::request::Request;
use tiny_http::response::Response;
use tiny_http::version::Version;

#[test]
fn decode_simple_get() {
    let req = decode_request(b"GET /echo/hello HTTP/1.1\r\n\r\n").unwrap();
    assert_eq!(*req.method(), Method::Get);
    assert_eq!(req.uri().as_bytes(), b"/echo/hello");
    assert_eq!(*req.version(), Version::Http11);
    assert!(req.body().is_empty());
}

#[test]
fn decode_with_headers_and_body() {
    let wire = b"POST /files/new HTTP/1.1\r\nHost: localhost:4221\r\nContent-Length: 5\r\n\r\nhello";
    let req = decode_request(wire).unwrap();
    assert_eq!(*req.method(), Method::Post);
    assert_eq!(req.uri().as_bytes(), b"/files/new");
    let host = req.get_header(&HeaderName::Host).unwrap();
    assert_eq!(host.as_slice(), b"localhost:4221");
    let cl = req.get_header(&HeaderName::ContentLength).unwrap();
    assert_eq!(cl.as_slice(), b"5");
    assert_eq!(req.body().as_slice(), b"hello");
}

#[test]
fn decode_ignores_bytes_past_content_length() {
    let wire = b"POST / HTTP/1.1\r\nContent-Length: 2\r\n\r\nhi there";
    let req = decode_request(wire).unwrap();
    assert_eq!(req.body().as_slice(), b"hi");
}

#[test]
fn decode_duplicate_content_length_takes_last() {
    let wire = b"POST / HTTP/1.1\r\nContent-Length: 1\r\nContent-Length: 3\r\n\r\nabcdef";
    let req = decode_request(wire).unwrap();
    assert_eq!(req.body().as_slice(), b"abc");
}

#[test]
fn request_line_with_no_tokens_is_invalid_uri() {
    let err = decode_request(b"\r\n\r\n").unwrap_err();
    assert_eq!(err.kind_of(), ErrorKind::Uri(InvalidUri));
}

#[test]
fn request_line_with_one_token_is_invalid_uri() {
    let err = decode_request(b"GET\r\n\r\n").unwrap_err();
    assert_eq!(err.kind_of(), ErrorKind::Uri(InvalidUri));
}

#[test]
fn request_line_with_two_tokens_is_invalid_version() {
    let err = decode_request(b"GET /\r\n\r\n").unwrap_err();
    assert_eq!(err.kind_of(), ErrorKind::Version(InvalidVersion));
}

#[test]
fn unknown_method_is_invalid_method() {
    let err = decode_request(b"BREW /pot HTTP/1.1\r\n\r\n").unwrap_err();
    assert_eq!(err.kind_of(), ErrorKind::Method(InvalidMethod));
}

#[test]
fn unknown_version_is_invalid_version() {
    let err = decode_request(b"GET / HTTP/9.9\r\n\r\n").unwrap_err();
    assert_eq!(err.kind_of(), ErrorKind::Version(InvalidVersion));
}

#[test]
fn unrecognized_header_name_is_invalid_header() {
    let err = decode_request(b"GET / HTTP/1.1\r\nX-Custom: 1\r\n\r\n").unwrap_err();
    assert_eq!(err.kind_of(), ErrorKind::Header(InvalidHeaderName));
}

#[test]
fn header_line_without_separator_is_invalid_header() {
    let err = decode_request(b"GET / HTTP/1.1\r\nnonsense\r\n\r\n").unwrap_err();
    assert_eq!(err.kind_of(), ErrorKind::Header(InvalidHeaderName));
}

#[test]
fn truncated_header_section_is_invalid_header() {
    let err = decode_request(b"GET / HTTP/1.1\r\nHost: x\r\n").unwrap_err();
    assert_eq!(err.kind_of(), ErrorKind::Header(InvalidHeaderName));
}

#[test]
fn non_numeric_content_length_is_invalid_header() {
    let err = decode_request(b"GET / HTTP/1.1\r\nContent-Length: abc\r\n\r\n").unwrap_err();
    assert_eq!(err.kind_of(), ErrorKind::Header(InvalidHeaderName));
}

#[test]
fn short_body_is_invalid_body() {
    let err = decode_request(b"POST / HTTP/1.1\r\nContent-Length: 10\r\n\r\nabc").unwrap_err();
    assert_eq!(err.kind_of(), ErrorKind::Body(InvalidBody));
}

#[test]
fn first_recorded_error_wins_over_later_headers() {
    // The bad method is recorded before the unrecognized header name.
    let err = decode_request(b"BREW / HTTP/1.1\r\nX-Custom: 1\r\n\r\n").unwrap_err();
    assert_eq!(err.kind_of(), ErrorKind::Method(InvalidMethod));
}

#[test]
fn encode_response_exact_bytes() {
    let resp = Response::builder()
        .with_status(200)
        .with_header(b"Content-Type", b"text/plain")
        .with_body(b"hi".to_vec())
        .unwrap();
    let out = encode_response(&resp).unwrap();
    assert_eq!(
        out,
        b"HTTP/1.1 200 OK\r\nContent-Type: text/plain\r\nContent-Length: 2\r\n\r\nhi".to_vec()
    );
}

#[test]
fn encode_response_unknown_status_is_rejected() {
    let resp = Response::builder()
        .with_status(418)
        .with_body(b"tea".to_vec())
        .unwrap();
    let err = encode_response(&resp).unwrap_err();
    assert_eq!(err.kind_of(), ErrorKind::StatusCode(InvalidStatusCode));
}

#[test]
fn content_length_matches_body_for_each_table_status() {
    let codes: [u16; 3] = [200, 201, 404];
    let body = b"hello world".to_vec();
    for code in codes {
        let resp = Response::builder()
            .with_status(code)
            .with_body(body.clone())
            .unwrap();
        let cl = resp.headers().get(&HeaderName::ContentLength).unwrap();
        assert_eq!(cl.as_slice(), b"11");
        let out = encode_response(&resp).unwrap();
        let tail: &[u8] = &out[out.len() - body.len()..];
        assert_eq!(tail, body.as_slice());
        let needle = b"Content-Length: 11\r\n";
        assert!(out.windows(needle.len()).any(|w| w == needle));
    }
}

#[test]
fn string_body_content_length_counts_bytes() {
    let resp = Response::builder()
        .with_status(200)
        .with_body(String::from("abc"))
        .unwrap();
    let cl = resp.headers().get(&HeaderName::ContentLength).unwrap();
    assert_eq!(cl.as_slice(), b"3");
}

#[test]
fn encode_then_decode_round_trip() {
    let req = Request::builder()
        .with_method(b"POST")
        .with_uri(b"/files/x")
        .with_version(b"HTTP/1.1")
        .with_header(b"Host", b"localhost")
        .with_header(b"Content-Length", b"3")
        .with_body(b"abc".to_vec())
        .unwrap();
    let wire = encode_request(&req);
    let back = decode_request(&wire).unwrap();
    assert_eq!(*back.method(), Method::Post);
    assert_eq!(back.uri().as_bytes(), b"/files/x");
    assert_eq!(*back.version(), Version::Http11);
    assert_eq!(back.body().as_slice(), b"abc");
    let host = back.get_header(&HeaderName::Host).unwrap();
    assert_eq!(host.as_slice(), b"localhost");
}

#[test]
fn encode_then_decode_round_trip_without_body() {
    let req = Request::builder()
        .with_method(b"GET")
        .with_uri(b"/")
        .with_version(b"HTTP/2.0")
        .with_body(Vec::new())
        .unwrap();
    let wire = encode_request(&req);
    assert_eq!(wire, b"GET / HTTP/2.0\r\n\r\n".to_vec());
    let back = decode_request(&wire).unwrap();
    assert_eq!(*back.method(), Method::Get);
    assert_eq!(back.uri().as_bytes(), b"/");
    assert_eq!(*back.version(), Version::Http2);
    assert!(back.body().is_empty());
}

#[test]
fn decimal_formatting_and_parsing() {
    assert_eq!(u64_to_dec(0), b"0".to_vec());
    assert_eq!(u64_to_dec(7), b"7".to_vec());
    assert_eq!(u64_to_dec(10), b"10".to_vec());
    assert_eq!(u64_to_dec(65535), b"65535".to_vec());
    assert_eq!(parse_dec_usize(b"0"), Some(0));
    assert_eq!(parse_dec_usize(b"007"), Some(7));
    assert_eq!(parse_dec_usize(b"12345"), Some(12345));
    assert_eq!(parse_dec_usize(b""), None);
    assert_eq!(parse_dec_usize(b"12a"), None);
    assert_eq!(parse_dec_usize(b"+5"), None);
    assert_eq!(parse_dec_usize(b"99999999999999999999999999"), None);
}

#[test]
fn blank_line_framing() {
    assert_eq!(find_blank_line(b"GET / HTTP/1.1\r\n"), None);
    assert_eq!(find_blank_line(b"GET / HTTP/1.1\r\n\r\n"), Some(14));
    assert_eq!(find_blank_line(b"\r\n\r\nrest"), Some(0));
    assert_eq!(find_blank_line(b""), None);
}
