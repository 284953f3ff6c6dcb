//! Tests for the router: registration, prefix matching, ambiguity, and the
//! full decode-dispatch-encode cycle.

use tiny_http::error::{AmbiguousRoute, Error, ErrorKind};
use tiny_http::method::Method;
use tiny_http::request::Request;
use tiny_http::response::Response;
use tiny_http::router::{respond, Handler, Router};
use tiny_http::uri::Uri;

/// A handler distinguishable by its variant, echoing enough of the request
/// to observe which one ran.
enum TestHandler {
    Home,
    Echo,
    Fixed(&'static str),
    NotFound,
}

impl Handler<Vec<u8>> for TestHandler {
    fn handle(&self, request: &Request<Vec<u8>>) -> Result<Response<Vec<u8>>, Error> {
        match self {
            TestHandler::Home => Response::builder().with_status(200).with_body(Vec::new()),
            TestHandler::Echo => {
                let uri = request.uri().as_bytes();
                let suffix: Vec<u8> = uri[6.min(uri.len())..].to_vec();
                Response::builder()
                    .with_status(200)
                    .with_header(b"Content-Type", b"text/plain")
                    .with_body(suffix)
            }
            TestHandler::Fixed(text) => Response::builder()
                .with_status(200)
                .with_body(text.as_bytes().to_vec()),
            TestHandler::NotFound => Response::builder()
                .with_status(404)
                .with_header(b"Content-Type", b"text/plain")
                .with_body(b"Error!".to_vec()),
        }
    }
}

#[test]
fn registering_same_route_twice_overwrites() {
    let mut router: Router<u32> = Router::new(0);
    router.insert(Uri::new("/files"), Method::Get, 1);
    router.insert(Uri::new("/files"), Method::Get, 2);
    let got = router.get_handler(&Uri::new("/files"), &Method::Get).unwrap();
    assert_eq!(got, Some(&2));
}

#[test]
fn same_path_different_methods_coexist() {
    let mut router: Router<u32> = Router::new(0);
    router.insert(Uri::new("/files"), Method::Get, 1);
    router.insert(Uri::new("/files"), Method::Post, 2);
    let got = router.get_handler(&Uri::new("/files"), &Method::Get).unwrap();
    assert_eq!(got, Some(&1));
    let got = router.get_handler(&Uri::new("/files"), &Method::Post).unwrap();
    assert_eq!(got, Some(&2));
}

#[test]
fn prefix_matching_selects_route() {
    let mut router: Router<u32> = Router::new(0);
    router.insert(Uri::new("/echo"), Method::Get, 7);
    let got = router
        .get_handler(&Uri::new("/echo/hello"), &Method::Get)
        .unwrap();
    assert_eq!(got, Some(&7));
}

#[test]
fn root_route_matches_only_exact_root() {
    let mut router: Router<u32> = Router::new(0);
    router.insert(Uri::new("/"), Method::Get, 9);
    let got = router.get_handler(&Uri::new("/"), &Method::Get).unwrap();
    assert_eq!(got, Some(&9));
    let got = router.get_handler(&Uri::new("/other"), &Method::Get).unwrap();
    assert_eq!(got, None);
}

#[test]
fn no_candidate_yields_none() {
    let mut router: Router<u32> = Router::new(0);
    router.insert(Uri::new("/echo"), Method::Get, 1);
    let got = router.get_handler(&Uri::new("/missing"), &Method::Get).unwrap();
    assert_eq!(got, None);
    let got = router.get_handler(&Uri::new("/echo/x"), &Method::Post).unwrap();
    assert_eq!(got, None);
}

#[test]
fn two_candidates_are_ambiguous() {
    let mut router: Router<u32> = Router::new(0);
    router.insert(Uri::new("/a"), Method::Get, 1);
    router.insert(Uri::new("/ab"), Method::Get, 2);
    let err = router.get_handler(&Uri::new("/ab/c"), &Method::Get).unwrap_err();
    assert_eq!(err.kind_of(), ErrorKind::Routing(AmbiguousRoute));
}

#[test]
fn from_list_applies_later_routes_over_earlier() {
    let routes = vec![
        (Uri::new("/x"), Method::Get, 1u32),
        (Uri::new("/x"), Method::Get, 2u32),
    ];
    let router = Router::from(routes, 0);
    let got = router.get_handler(&Uri::new("/x"), &Method::Get).unwrap();
    assert_eq!(got, Some(&2));
}

#[test]
fn echo_scenario_yields_suffix_body() {
    let mut router = Router::new(TestHandler::NotFound);
    router.insert(Uri::new("/echo"), Method::Get, TestHandler::Echo);
    let out = respond(&router, b"GET /echo/hello HTTP/1.1\r\n\r\n").unwrap();
    assert_eq!(
        out,
        b"HTTP/1.1 200 OK\r\nContent-Type: text/plain\r\nContent-Length: 5\r\n\r\nhello".to_vec()
    );
}

#[test]
fn missing_route_scenario_yields_fallback_404() {
    let mut router = Router::new(TestHandler::NotFound);
    router.insert(Uri::new("/echo"), Method::Get, TestHandler::Echo);
    let out = respond(&router, b"GET /missing HTTP/1.1\r\n\r\n").unwrap();
    assert!(out.starts_with(b"HTTP/1.1 404 Not Found\r\n"));
    assert!(out.ends_with(b"\r\n\r\nError!"));
}

#[test]
fn replaced_handler_scenario_serves_second() {
    let mut router = Router::new(TestHandler::NotFound);
    router.insert(Uri::new("/x"), Method::Get, TestHandler::Fixed("first"));
    router.insert(Uri::new("/x"), Method::Get, TestHandler::Fixed("second"));
    let out = respond(&router, b"GET /x HTTP/1.1\r\n\r\n").unwrap();
    assert!(out.ends_with(b"\r\n\r\nsecond"));
}

#[test]
fn malformed_request_draws_fallback_response() {
    let router: Router<TestHandler> = Router::new(TestHandler::NotFound);
    let out = respond(&router, b"NONSENSE\r\n\r\n").unwrap();
    assert!(out.starts_with(b"HTTP/1.1 404 Not Found\r\n"));
}

#[test]
fn ambiguous_request_falls_back() {
    let mut router = Router::new(TestHandler::NotFound);
    router.insert(Uri::new("/a"), Method::Get, TestHandler::Fixed("a"));
    router.insert(Uri::new("/ab"), Method::Get, TestHandler::Fixed("ab"));
    let out = respond(&router, b"GET /ab/c HTTP/1.1\r\n\r\n").unwrap();
    assert!(out.starts_with(b"HTTP/1.1 404 Not Found\r\n"));
}

#[test]
fn home_route_via_dispatch() {
    let mut router = Router::new(TestHandler::NotFound);
    router.insert(Uri::new("/"), Method::Get, TestHandler::Home);
    let req = tiny_http::codec::decode_request(b"GET / HTTP/1.1\r\n\r\n").unwrap();
    let resp = router.handle_request(&req).unwrap();
    assert_eq!(resp.status().code(), 200);
    assert!(resp.body().is_empty());
}

/// A fallback handler that names a status outside the fixed table.
struct BadStatusHandler;

impl Handler<Vec<u8>> for BadStatusHandler {
    fn handle(&self, _request: &Request<Vec<u8>>) -> Result<Response<Vec<u8>>, Error> {
        Response::builder().with_status(999).with_body(Vec::new())
    }
}

#[test]
fn fallback_with_unknown_status_fails_encoding() {
    let router: Router<BadStatusHandler> = Router::new(BadStatusHandler);
    let err = respond(&router, b"GET /missing HTTP/1.1\r\n\r\n").unwrap_err();
    assert_eq!(
        err.kind_of(),
        ErrorKind::StatusCode(tiny_http::error::InvalidStatusCode)
    );
}
