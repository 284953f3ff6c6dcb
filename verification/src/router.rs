//! The router: maps (path, method) pairs to handlers and resolves each
//! request to exactly one handler or to the fallback.
//!
//! Matching is flat prefix dispatch: a route at `/` handles only the exact
//! root URI; any other route is a candidate when its path is a raw string
//! prefix of the request URI and its method matches. No segments, no
//! parameters, no chaining. More than one candidate is an `AmbiguousRoute`
//! error for that request.

use vstd::prelude::*;

use crate::body::Body;
use crate::bytes_util::{bytes_eq, is_prefix_of, starts_with};
use crate::codec::{decode_request, encode_response, spec_encode_response};
use crate::error::{AmbiguousRoute, Error, ErrorKind};
use crate::header::name::HeaderName;
use crate::method::Method;
use crate::request::Request;
use crate::response::Response;
use crate::status::spec_reason;
use crate::uri::Uri;
use crate::version::Version;

verus! {

/// A request handler: the boundary to user code.
///
/// A handler takes an immutable request reference and produces a complete
/// response or a typed error; the router never inspects handler internals. A
/// complete response keeps the head invariants that the response builder
/// establishes.
pub trait Handler<T> {
    /// Handles the request.
    fn handle(&self, request: &Request<T>) -> (r: Result<Response<T>, Error>)
        ensures
            r is Ok ==> r->Ok_0.wf(),
    ;
}

/// One registered route.
struct Route<H> {
    uri: Uri,
    method: Method,
    handler: H,
}

/// Whether a route registered at path `p` with method `m` is a candidate for
/// a request to `uri` with `method`.
pub open spec fn route_matches(p: Seq<u8>, m: Method, uri: Seq<u8>, method: Method) -> bool {
    if uri == seq!['/' as u8] {
        p == uri && m == method
    } else {
        is_prefix_of(p, uri) && p != seq!['/' as u8] && m == method
    }
}

/// How many routes of `rs` are candidates for the request.
pub open spec fn match_count<H>(rs: Seq<(Seq<u8>, Method, H)>, uri: Seq<u8>, method: Method) -> nat
    decreases rs.len(),
{
    if rs.len() == 0 {
        0
    } else {
        match_count(rs.drop_last(), uri, method) + if route_matches(
            rs.last().0,
            rs.last().1,
            uri,
            method,
        ) {
            1nat
        } else {
            0nat
        }
    }
}

/// The map denoted by a sequence of routes: later routes overwrite earlier
/// ones with the same path and method.
pub open spec fn route_map_of<H>(rs: Seq<(Seq<u8>, Method, H)>) -> Map<(Seq<u8>, Method), H>
    decreases rs.len(),
{
    if rs.len() == 0 {
        Map::empty()
    } else {
        route_map_of(rs.drop_last()).insert((rs.last().0, rs.last().1), rs.last().2)
    }
}

/// The view of a route list entry: path bytes, method, handler.
pub open spec fn route_entries<H>(l: Seq<(Uri, Method, H)>) -> Seq<(Seq<u8>, Method, H)> {
    l.map(|_i: int, e: (Uri, Method, H)| (e.0@, e.1, e.2))
}

/// No two routes of `rs` share a path and method.
pub open spec fn unique_routes<H>(rs: Seq<(Seq<u8>, Method, H)>) -> bool {
    forall|i: int, j: int|
        0 <= i < j < rs.len() ==> ((#[trigger] rs[i]).0, rs[i].1) != ((#[trigger] rs[j]).0,
        rs[j].1)
}

/// A key is in the map of `rs` exactly when some route of `rs` carries it.
proof fn lemma_route_map_domain<H>(rs: Seq<(Seq<u8>, Method, H)>, key: (Seq<u8>, Method))
    ensures
        route_map_of(rs).contains_key(key) <==> exists|i: int|
            0 <= i < rs.len() && ((#[trigger] rs[i]).0, rs[i].1) == key,
    decreases rs.len(),
{
    if rs.len() > 0 {
        lemma_route_map_domain(rs.drop_last(), key);
        if (rs.last().0, rs.last().1) == key {
            assert(((#[trigger] rs[rs.len() - 1]).0, rs[rs.len() - 1].1) == key);
        } else if route_map_of(rs).contains_key(key) {
            let i = choose|i: int|
                0 <= i < rs.drop_last().len() && ((#[trigger] rs.drop_last()[i]).0,
                rs.drop_last()[i].1) == key;
            assert(((#[trigger] rs[i]).0, rs[i].1) == key);
        } else {
            assert forall|i: int|
                0 <= i < rs.len() && ((#[trigger] rs[i]).0, rs[i].1) == key implies false by {
                if i < rs.len() - 1 {
                    assert(((#[trigger] rs.drop_last()[i]).0, rs.drop_last()[i].1) == key);
                }
            }
        }
    }
}

/// In a sequence of unique routes, the map of `rs` sends the key of route
/// `i` to that route's handler.
proof fn lemma_route_map_at<H>(rs: Seq<(Seq<u8>, Method, H)>, i: int)
    requires
        unique_routes(rs),
        0 <= i < rs.len(),
    ensures
        route_map_of(rs).contains_key((rs[i].0, rs[i].1)),
        route_map_of(rs)[(rs[i].0, rs[i].1)] == rs[i].2,
    decreases rs.len(),
{
    if i == rs.len() - 1 {
    } else {
        lemma_route_map_at(rs.drop_last(), i);
        assert(rs.drop_last()[i] == rs[i]);
    }
}

/// Removing the unique route with a key and reinserting the key denotes the
/// same map as inserting over the original sequence.
proof fn lemma_route_map_insert_after_remove<H>(rs: Seq<(Seq<u8>, Method, H)>, i: int, h: H)
    requires
        unique_routes(rs),
        0 <= i < rs.len(),
    ensures
        route_map_of(rs.remove(i).push((rs[i].0, rs[i].1, h))) == route_map_of(rs).insert(
            (rs[i].0, rs[i].1),
            h,
        ),
{
    let key = (rs[i].0, rs[i].1);
    let lhs = route_map_of(rs.remove(i).push((rs[i].0, rs[i].1, h)));
    let rhs = route_map_of(rs).insert(key, h);
    assert(rs.remove(i).push((rs[i].0, rs[i].1, h)).drop_last() =~= rs.remove(i));
    assert(lhs == route_map_of(rs.remove(i)).insert(key, h));
    assert(unique_routes(rs.remove(i))) by {
        assert forall|x: int, y: int| 0 <= x < y < rs.remove(i).len() implies ((
        #[trigger] rs.remove(i)[x]).0, rs.remove(i)[x].1) != ((#[trigger] rs.remove(i)[y]).0,
        rs.remove(i)[y].1) by {
            let x0 = if x < i {
                x
            } else {
                x + 1
            };
            let y0 = if y < i {
                y
            } else {
                y + 1
            };
            assert(rs[x0] == rs.remove(i)[x] && rs[y0] == rs.remove(i)[y]);
        }
    }
    assert forall|k: (Seq<u8>, Method)| lhs.contains_key(k) <==> rhs.contains_key(k) by {
        lemma_route_map_domain(rs.remove(i), k);
        lemma_route_map_domain(rs, k);
        if k == key {
            assert(((#[trigger] rs[i]).0, rs[i].1) == key);
        } else {
            if exists|a: int|
                0 <= a < rs.remove(i).len() && ((#[trigger] rs.remove(i)[a]).0,
                rs.remove(i)[a].1) == k {
                let a = choose|a: int|
                    0 <= a < rs.remove(i).len() && ((#[trigger] rs.remove(i)[a]).0,
                    rs.remove(i)[a].1) == k;
                let a0 = if a < i {
                    a
                } else {
                    a + 1
                };
                assert(((#[trigger] rs[a0]).0, rs[a0].1) == k);
            }
            if exists|a: int| 0 <= a < rs.len() && ((#[trigger] rs[a]).0, rs[a].1) == k {
                let a = choose|a: int| 0 <= a < rs.len() && ((#[trigger] rs[a]).0, rs[a].1) == k;
                let a0 = if a < i {
                    a
                } else {
                    a - 1
                };
                assert(a != i);
                assert(((#[trigger] rs.remove(i)[a0]).0, rs.remove(i)[a0].1) == k);
            }
        }
    }
    assert forall|k: (Seq<u8>, Method)| lhs.contains_key(k) implies lhs[k] == rhs[k] by {
        if k != key {
            lemma_route_map_domain(rs.remove(i), k);
            let a = choose|a: int|
                0 <= a < rs.remove(i).len() && ((#[trigger] rs.remove(i)[a]).0,
                rs.remove(i)[a].1) == k;
            lemma_route_map_at(rs.remove(i), a);
            let a0 = if a < i {
                a
            } else {
                a + 1
            };
            assert(rs[a0] == rs.remove(i)[a]);
            lemma_route_map_at(rs, a0);
        }
    }
    assert(lhs =~= rhs);
}

/// Registering the same path and method twice overwrites rather than
/// duplicates: two registrations under one key leave exactly the second
/// handler in the table, as if the first had never happened.
pub proof fn lemma_register_overwrites<H>(
    m: Map<(Seq<u8>, Method), H>,
    key: (Seq<u8>, Method),
    first: H,
    second: H,
)
    ensures
        m.insert(key, first).insert(key, second) == m.insert(key, second),
{
    assert(m.insert(key, first).insert(key, second) =~= m.insert(key, second));
}

/// Maps requests to the handlers registered for their path and method, plus
/// the mandatory fallback handler.
pub struct Router<H> {
    routes: Vec<Route<H>>,
    error_handler: H,
}

impl<H> Router<H> {
    /// The registered routes in storage order, as a contract speaks of them:
    /// path bytes, method, handler.
    pub closed spec fn routes_seq(&self) -> Seq<(Seq<u8>, Method, H)> {
        self.routes@.map(|_i: int, r: Route<H>| (r.uri@, r.method, r.handler))
    }

    /// The route table as a map from (path, method) to handler.
    pub open spec fn as_map(&self) -> Map<(Seq<u8>, Method), H> {
        route_map_of(self.routes_seq())
    }

    /// The fallback handler.
    pub closed spec fn spec_error_handler(&self) -> H {
        self.error_handler
    }

    /// No two routes share a path and method.
    pub open spec fn wf(&self) -> bool {
        unique_routes(self.routes_seq())
    }

    /// Creates a router with no routes and the mandatory fallback handler.
    pub fn new(error_handler: H) -> (r: Router<H>)
        ensures
            r.wf(),
            r.as_map() == Map::<(Seq<u8>, Method), H>::empty(),
            r.routes_seq() == Seq::<(Seq<u8>, Method, H)>::empty(),
            r.spec_error_handler() == error_handler,
    {
        let r = Router { routes: Vec::new(), error_handler };
        proof {
            assert(r.routes_seq() =~= Seq::<(Seq<u8>, Method, H)>::empty());
        }
        r
    }

    /// Finds the storage index of a route key, if registered.
    fn position_of(&self, uri: &Uri, method: &Method) -> (r: Option<usize>)
        ensures
            match r {
                Some(i) => i < self.routes_seq().len() && self.routes_seq()[i as int].0 == uri@
                    && self.routes_seq()[i as int].1 == *method,
                None => forall|k: int|
                    0 <= k < self.routes_seq().len() ==> ((#[trigger] self.routes_seq()[k]).0,
                    self.routes_seq()[k].1) != (uri@, *method),
            },
    {
        let mut i: usize = 0;
        while i < self.routes.len()
            invariant
                i <= self.routes.len(),
                forall|k: int|
                    0 <= k < i ==> ((#[trigger] self.routes_seq()[k]).0, self.routes_seq()[k].1)
                        != (uri@, *method),
            decreases self.routes.len() - i,
        {
            let route = &self.routes[i];
            if route.method == *method && bytes_eq(route.uri.as_bytes(), uri.as_bytes()) {
                return Some(i);
            }
            i += 1;
        }
        None
    }

    /// Registers a route: the handler for a path and method.
    ///
    /// Registering the same path and method again replaces the handler; no
    /// two routes ever share a key.
    pub fn insert(&mut self, uri: Uri, method: Method, handler: H)
        requires
            old(self).wf(),
        ensures
            final(self).wf(),
            final(self).as_map() == old(self).as_map().insert((uri@, method), handler),
            final(self).spec_error_handler() == old(self).spec_error_handler(),
    {
        let ghost rs_old = self.routes_seq();
        let ghost key = (uri@, method);
        match self.position_of(&uri, &method) {
            Some(i) => {
                proof {
                    lemma_route_map_insert_after_remove(rs_old, i as int, handler);
                }
                let _ = self.routes.remove(i);
                let ghost rs_mid = self.routes_seq();
                proof {
                    assert(rs_mid =~= rs_old.remove(i as int));
                }
                self.routes.push(Route { uri, method, handler });
                proof {
                    let rs_new = self.routes_seq();
                    assert(rs_new =~= rs_mid.push((rs_old[i as int].0, rs_old[i as int].1,
                    handler)));
                    assert(unique_routes(rs_new)) by {
                        assert forall|a: int, b: int| 0 <= a < b < rs_new.len() implies ((
                        #[trigger] rs_new[a]).0, rs_new[a].1) != ((#[trigger] rs_new[b]).0,
                        rs_new[b].1) by {
                            if b < rs_new.len() - 1 {
                                let a0 = if a < i {
                                    a
                                } else {
                                    a + 1
                                };
                                let b0 = if b < i {
                                    b
                                } else {
                                    b + 1
                                };
                                assert(rs_old[a0] == rs_new[a] && rs_old[b0] == rs_new[b]);
                            } else {
                                let a0 = if a < i {
                                    a
                                } else {
                                    a + 1
                                };
                                assert(rs_old[a0] == rs_new[a]);
                                assert((rs_old[a0].0, rs_old[a0].1) != (rs_old[i as int].0,
                                rs_old[i as int].1));
                            }
                        }
                    }
                }
            },
            None => {
                self.routes.push(Route { uri, method, handler });
                proof {
                    let rs_new = self.routes_seq();
                    assert(rs_new =~= rs_old.push((uri@, method, handler)));
                    assert(rs_new.drop_last() =~= rs_old);
                    assert(unique_routes(rs_new)) by {
                        assert forall|a: int, b: int| 0 <= a < b < rs_new.len() implies ((
                        #[trigger] rs_new[a]).0, rs_new[a].1) != ((#[trigger] rs_new[b]).0,
                        rs_new[b].1) by {
                            if b < rs_new.len() - 1 {
                                assert(rs_old[a] == rs_new[a] && rs_old[b] == rs_new[b]);
                            } else {
                                assert(rs_old[a] == rs_new[a]);
                            }
                        }
                    }
                }
            },
        }
    }

    /// Creates a new `Router` from a list of routes and the mandatory
    /// fallback handler.
    ///
    /// Routes apply in order: a later entry with the same path and method
    /// replaces an earlier one, as registering each in turn would.
    #[verifier::loop_isolation(false)]
    pub fn from(routes: Vec<(Uri, Method, H)>, error_handler: H) -> (r: Router<H>)
        ensures
            r.wf(),
            r.as_map() == route_map_of(route_entries(routes@)),
            r.spec_error_handler() == error_handler,
    {
        let ghost entries = route_entries(routes@);
        let mut r = Router::new(error_handler);
        let mut rest = routes;
        let ghost k: int = 0;
        proof {
            assert(entries.take(0) =~= Seq::<(Seq<u8>, Method, H)>::empty());
            assert(route_entries(rest@) =~= entries.skip(0));
        }
        while rest.len() > 0
            invariant
                0 <= k <= entries.len(),
                route_entries(rest@) == entries.skip(k),
                r.wf(),
                r.spec_error_handler() == error_handler,
                r.as_map() == route_map_of(entries.take(k)),
            decreases rest@.len(),
        {
            let ghost rest_old = rest@;
            let (uri, method, handler) = rest.remove(0);
            proof {
                assert(route_entries(rest_old)[0] == entries.skip(k)[0]);
                assert(entries.skip(k)[0] == entries[k]);
                assert(entries[k] == (uri@, method, handler));
            }
            r.insert(uri, method, handler);
            proof {
                assert(entries.take(k + 1).drop_last() =~= entries.take(k));
                assert(entries.take(k + 1).last() == entries[k]);
                assert(r.as_map() == route_map_of(entries.take(k + 1)));
                assert(rest@ =~= rest_old.remove(0));
                assert(route_entries(rest@) =~= entries.skip(k + 1)) by {
                    assert forall|j: int|
                        0 <= j < rest@.len() implies #[trigger] route_entries(rest@)[j]
                        == entries.skip(k + 1)[j] by {
                        assert(rest@[j] == rest_old[j + 1]);
                        assert(route_entries(rest_old)[j + 1] == entries.skip(k)[j + 1]);
                        assert(entries.skip(k)[j + 1] == entries[k + 1 + j]);
                        assert(entries.skip(k + 1)[j] == entries[k + 1 + j]);
                    }
                }
                k = k + 1;
            }
        }
        proof {
            assert(entries.skip(k).len() == 0);
            assert(k == entries.len());
            assert(entries.take(k) =~= entries);
        }
        r
    }

    /// Gets the handler registered for the path and method, if exactly one
    /// route is a candidate.
    ///
    /// No candidate is `Ok(None)` — the caller falls back; more than one is
    /// an `AmbiguousRoute` error.
    #[verifier::loop_isolation(false)]
    pub fn get_handler(&self, path: &Uri, method: &Method) -> (r: Result<Option<&H>, Error>)
        ensures
            ({
                let c = match_count(self.routes_seq(), path@, *method);
                match r {
                    Ok(None) => c == 0,
                    Ok(Some(h)) => c == 1 && exists|i: int|
                        0 <= i < self.routes_seq().len() && route_matches(
                            (#[trigger] self.routes_seq()[i]).0,
                            self.routes_seq()[i].1,
                            path@,
                            *method,
                        ) && *h == self.routes_seq()[i].2,
                    Err(e) => c >= 2 && e.kind() == ErrorKind::Routing(AmbiguousRoute),
                }
            }),
    {
        let root: [u8; 1] = ['/' as u8];
        proof {
            assert(root@ =~= seq!['/' as u8]);
        }
        let is_root = bytes_eq(path.as_bytes(), root.as_slice());
        let mut count: usize = 0;
        let mut found: usize = 0;
        let mut i: usize = 0;
        while i < self.routes.len()
            invariant
                i <= self.routes.len(),
                is_root == (path@ == seq!['/' as u8]),
                count == match_count(self.routes_seq().take(i as int), path@, *method),
                count <= i,
                count >= 1 ==> found < i && route_matches(
                    self.routes_seq()[found as int].0,
                    self.routes_seq()[found as int].1,
                    path@,
                    *method,
                ),
            decreases self.routes.len() - i,
        {
            let route = &self.routes[i];
            let matched: bool = if route.method == *method {
                if is_root {
                    bytes_eq(route.uri.as_bytes(), path.as_bytes())
                } else {
                    if starts_with(path.as_bytes(), route.uri.as_bytes()) {
                        !bytes_eq(route.uri.as_bytes(), root.as_slice())
                    } else {
                        false
                    }
                }
            } else {
                false
            };
            proof {
                assert(matched == route_matches(
                    self.routes_seq()[i as int].0,
                    self.routes_seq()[i as int].1,
                    path@,
                    *method,
                ));
                assert(self.routes_seq().take(i + 1).drop_last() =~= self.routes_seq().take(
                    i as int,
                ));
                assert(self.routes_seq().take(i + 1).last() == self.routes_seq()[i as int]);
            }
            if matched {
                found = i;
                count += 1;
            }
            i += 1;
        }
        proof {
            assert(self.routes_seq().take(self.routes@.len() as int) =~= self.routes_seq());
        }
        if count == 0 {
            Ok(None)
        } else if count == 1 {
            Ok(Some(&self.routes[found].handler))
        } else {
            Err(Error::of_kind(ErrorKind::Routing(AmbiguousRoute)))
        }
    }

    /// Handles the request.
    ///
    /// The request is resolved against the registered routes and the unique
    /// candidate handler is invoked; with no candidate, the fallback handler
    /// is invoked; with more than one, the request fails as ambiguous.
    pub fn handle_request<T>(&self, request: &Request<T>) -> (r: Result<Response<T>, Error>) where
        H: Handler<T>,

        requires
            request.wf(),
        ensures
            r is Ok ==> r->Ok_0.wf(),
            match_count(self.routes_seq(), request.spec_head().uri@, request.spec_head().method)
                >= 2 ==> r is Err && r->Err_0.kind() == ErrorKind::Routing(AmbiguousRoute),
    {
        match self.get_handler(request.uri(), request.method()) {
            Ok(Some(handler)) => handler.handle(request),
            Ok(None) => self.handle_error(request),
            Err(e) => Err(e),
        }
    }

    /// Handles the request with the mandatory fallback handler.
    pub fn handle_error<T>(&self, request: &Request<T>) -> (r: Result<Response<T>, Error>) where
        H: Handler<T>,

        requires
            request.wf(),
        ensures
            r is Ok ==> r->Ok_0.wf(),
    {
        self.error_handler.handle(request)
    }
}

/// Runs one connection's whole cycle on its request bytes: decode the
/// request, dispatch it, and encode the response.
///
/// A request that fails to decode is handed to the fallback handler as a
/// default request, so a malformed request still draws a well-formed error
/// response. A handler failure falls back the same way. Every success is
/// the wire encoding of a response whose status is in the fixed reason
/// table.
pub fn respond<H: Handler<Vec<u8>>>(router: &Router<H>, input: &[u8]) -> (r: Result<
    Vec<u8>,
    Error,
>)
    ensures
        r is Ok ==> exists|v: Version, c: u16, es: Seq<(HeaderName, Seq<u8>)>, b: Seq<u8>|
            spec_reason(c) is Some && (#[trigger] spec_encode_response(v, c, es, b)) == r->Ok_0@,
{
    let outcome = match decode_request(input) {
        Ok(req) => match router.handle_request(&req) {
            Ok(resp) => Ok(resp),
            Err(_) => router.handle_error(&req),
        },
        Err(_) => match Request::builder().with_body(Vec::new()) {
            Ok(req) => router.handle_error(&req),
            Err(e) => Err(e),
        },
    };
    match outcome {
        Ok(resp) => match encode_response(&resp) {
            Ok(bytes) => {
                proof {
                    let v = resp.spec_head().version;
                    let c = resp.spec_head().status.as_u16();
                    let es = resp.spec_head().headers.entries_seq();
                    let b = resp.spec_body().byte_view();
                    assert(spec_reason(c) is Some && spec_encode_response(v, c, es, b) == bytes@);
                }
                Ok(bytes)
            },
            Err(e) => Err(e),
        },
        Err(e) => Err(e),
    }
}

} // verus!
