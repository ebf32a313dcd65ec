//! The route table and the dispatch of a request to its handler.

use crate::error::RequestError;
use crate::headers::put;
use crate::headers::{Headers, HttpMethod, IntoHttpMethod, StatusCode};
use crate::request::{parse_request, parsed_request, Request, RequestView};
use crate::response::{fresh_response, response_bytes, with_body, Response, ResponseView};
use crate::server::Service;
use crate::utils::text::{clock_date, current_date, text_eq};
use vstd::prelude::*;
use vstd::utf8::encode_utf8;

verus! {

/// The answer to a request that no route matches: status `NotFound` and the
/// body `404 Not Found`.
pub open spec fn not_found_page(date: Seq<char>) -> ResponseView {
    with_body(fresh_response(StatusCode::NotFound, date), encode_utf8("404 Not Found"@))
}

/// Whether a route for `path` and `method` stands among the keys. The path
/// must be the same text: no slash is added or dropped, no pattern is
/// matched, no query is cut off.
pub open spec fn has_route(keys: Seq<(Seq<char>, HttpMethod)>, path: Seq<char>, method: HttpMethod) -> bool {
    exists|i: int| 0 <= i < keys.len() && #[trigger] keys[i] == (path, method)
}

/// Where the route for `path` and `method` stands among the keys, if there is
/// one.
pub open spec fn route_index(
    keys: Seq<(Seq<char>, HttpMethod)>,
    path: Seq<char>,
    method: HttpMethod,
) -> Option<int> {
    if has_route(keys, path, method) {
        Some(choose|i: int| 0 <= i < keys.len() && #[trigger] keys[i] == (path, method))
    } else {
        None
    }
}

/// Whether `response` is an answer of the table to `request`: an answer of
/// the handler registered for its path and method, or, where there is none,
/// the not-found page.
pub open spec fn answers<H: Service>(
    keys: Seq<(Seq<char>, HttpMethod)>,
    handlers: Seq<H>,
    request: Request,
    response: Response,
) -> bool {
    match route_index(keys, request@.path, request@.method) {
        Some(i) => handlers[i].serves(request, response),
        None => exists|date: Seq<char>|
            #[trigger] clock_date(date) && response@ == not_found_page(date),
    }
}

/// No pair of path and method stands twice among the keys.
pub open spec fn distinct_routes(keys: Seq<(Seq<char>, HttpMethod)>) -> bool {
    forall|i: int, j: int| 0 <= i < j < keys.len() ==> #[trigger] keys[i] != #[trigger] keys[j]
}

/// Among keys that stand once each, a key is found where it stands.
pub proof fn lemma_route_index(keys: Seq<(Seq<char>, HttpMethod)>, i: int)
    requires
        distinct_routes(keys),
        0 <= i < keys.len(),
    ensures
        route_index(keys, keys[i].0, keys[i].1) == Some(i),
{
    let (path, method) = keys[i];
    assert(keys[i] == (path, method));
    let k = choose|k: int| 0 <= k < keys.len() && #[trigger] keys[k] == (path, method);
    if k < i {
        assert(keys[k] != keys[i]);
    } else if i < k {
        assert(keys[i] != keys[k]);
    }
}

/// One entry of the table.
struct Route<H> {
    path: String,
    method: HttpMethod,
    handler: H,
}

/// The route table: one handler for each pair of path and method.
///
/// The table holds handlers of one type. A table of handlers of several
/// shapes is one whose handler type has a variant for each.
pub struct Router<H: Service> {
    path_router: Vec<Route<H>>,
}

impl<H: Service> Router<H> {
    #[verifier::type_invariant]
    spec fn well_formed(&self) -> bool {
        &&& distinct_routes(self.keys())
        &&& forall|i: int, r: Request|
            0 <= i < self.path_router@.len() ==> #[trigger] self.path_router@[i].handler.accepts(r)
    }

    /// The pairs of path and method that have a handler, in the order in which
    /// they were first registered.
    pub closed spec fn keys(&self) -> Seq<(Seq<char>, HttpMethod)> {
        Seq::new(
            self.path_router@.len(),
            |i: int| (self.path_router@[i].path@, self.path_router@[i].method),
        )
    }

    /// The handlers, each where its key stands.
    pub closed spec fn handlers(&self) -> Seq<H> {
        Seq::new(self.path_router@.len(), |i: int| self.path_router@[i].handler)
    }

    /// The table without a route.
    pub fn new() -> (router: Self)
        ensures
            router.keys() == Seq::<(Seq<char>, HttpMethod)>::empty(),
            router.handlers() == Seq::<H>::empty(),
    {
        let router = Router { path_router: Vec::new() };
        assert(router.keys() =~= Seq::<(Seq<char>, HttpMethod)>::empty());
        assert(router.handlers() =~= Seq::<H>::empty());
        router
    }

    /// Where the route for `path` and `method` stands.
    fn position(&self, path: &str, method: HttpMethod) -> (at: Option<usize>)
        ensures
            self.keys().len() == self.handlers().len(),
            distinct_routes(self.keys()),
            forall|i: int, r: Request|
                0 <= i < self.handlers().len() ==> #[trigger] self.handlers()[i].accepts(r),
            match at {
                Some(i) => i < self.keys().len() && route_index(self.keys(), path@, method) == Some(
                    i as int,
                ),
                None => route_index(self.keys(), path@, method) is None,
            },
    {
        proof {
            use_type_invariant(self);
            assert forall|i: int, r: Request| 0 <= i < self.handlers().len() implies #[trigger]
                self.handlers()[i].accepts(r) by {
                assert(self.path_router@[i].handler.accepts(r));
            }
        }
        let mut i: usize = 0;
        while i < self.path_router.len()
            invariant
                i <= self.path_router.len(),
                distinct_routes(self.keys()),
                forall|k: int, r: Request|
                    0 <= k < self.handlers().len() ==> #[trigger] self.handlers()[k].accepts(r),
                forall|j: int| 0 <= j < i ==> #[trigger] self.keys()[j] != (path@, method),
            decreases self.path_router.len() - i,
        {
            if self.path_router[i].method == method && text_eq(
                self.path_router[i].path.as_str(),
                path,
            ) {
                proof {
                    lemma_route_index(self.keys(), i as int);
                }
                return Some(i);
            }
            i += 1;
        }
        None
    }

    /// Registers `handle` for `path` and `method`. A handler registered
    /// before for the same pair is replaced; every other route stays.
    pub fn route(self, path: &str, method: impl IntoHttpMethod, handle: H) -> (router: Self)
        requires
            forall|r: Request| handle.accepts(r),
        ensures
            router.keys().len() == router.handlers().len(),
            distinct_routes(router.keys()),
            match route_index(self.keys(), path@, method.method()) {
                Some(i) => router.keys() == self.keys() && router.handlers()
                    == self.handlers().update(i, handle),
                None => router.keys() == self.keys().push((path@, method.method()))
                    && router.handlers() == self.handlers().push(handle),
            },
            route_index(router.keys(), path@, method.method()) matches Some(at)
                && router.handlers()[at] == handle,
    {
        let method = method.into_http_method();
        let at = self.position(path, method);
        let ghost old_keys = self.keys();
        let ghost old_handlers = self.handlers();
        let routes = self.path_router;
        let ghost before = routes@;
        let route = Route { path: String::from_str(path), method, handler: handle };
        let routes = match at {
            Some(i) => {
                let mut changed = routes;
                changed[i] = route;
                changed
            },
            None => {
                let mut longer = routes;
                longer.push(route);
                longer
            },
        };
        let ghost keys = Seq::new(routes@.len(), |i: int| (routes@[i].path@, routes@[i].method));
        let ghost handlers = Seq::new(routes@.len(), |i: int| routes@[i].handler);
        proof {
            match at {
                Some(i) => {
                    assert(old_keys[i as int] == (path@, method));
                    assert(keys =~= old_keys);
                    assert(handlers =~= old_handlers.update(i as int, handle));
                },
                None => {
                    assert(keys =~= old_keys.push((path@, method)));
                    assert(handlers =~= old_handlers.push(handle));
                    assert forall|i: int, j: int| 0 <= i < j < keys.len() implies #[trigger] keys[i]
                        != #[trigger] keys[j] by {
                        if j == old_keys.len() {
                            assert(old_keys[i] != (path@, method));
                        }
                    }
                },
            }
            assert forall|i: int, r: Request| 0 <= i < routes@.len() implies #[trigger] routes@[i].handler.accepts(
                r,
            ) by {
                if i < old_handlers.len() && routes@[i] == before[i] {
                    assert(old_handlers[i].accepts(r));
                }
            }
        }
        let router = Router { path_router: routes };
        assert(router.keys() == keys);
        assert(router.handlers() == handlers);
        proof {
            let slot = match at {
                Some(i) => i as int,
                None => old_keys.len() as int,
            };
            assert(keys[slot] == (path@, method));
            lemma_route_index(keys, slot);
        }
        router
    }

    /// Answers `req`: the handler registered for its path and method is
    /// called and its response returned as it is; where there is none, the
    /// answer is the not-found page. The table stays as it was.
    pub fn handle(&mut self, req: Request) -> (response: Response)
        ensures
            final(self).keys() == old(self).keys(),
            final(self).handlers() == old(self).handlers(),
            final(self).keys().len() == final(self).handlers().len(),
            distinct_routes(final(self).keys()),
            answers(old(self).keys(), old(self).handlers(), req, response),
    {
        let at = self.position(req.path_ref(), *req.method_ref());
        match at {
            Some(i) => {
                let mut taken = Router::new();
                core::mem::swap(self, &mut taken);
                proof {
                    use_type_invariant(&taken);
                }
                let mut routes = taken.path_router;
                let ghost before = routes@;
                assert(old(self).handlers()[i as int] == before[i as int].handler);
                let response = routes[i].handler.call(req);
                assert(routes@ =~= before);
                *self = Router { path_router: routes };
                response
            },
            None => {
                let date = current_date();
                let response = Response::dated(StatusCode::NotFound, date).body(
                    vstd::slice::slice_to_vec("404 Not Found".as_bytes()),
                );
                assert(clock_date(date@) && response@ == not_found_page(date@));
                response
            },
        }
    }

    /// Serves one connection: frames `buffer` into a request, answers it,
    /// writes the address the server listens on into the `Host` header and
    /// returns the response as bytes. A buffer that frames no request gives
    /// the error of the framing, and no response.
    pub fn respond(&mut self, buffer: &[u8], local_addr: &str) -> (answer: Result<
        Vec<u8>,
        RequestError,
    >)
        ensures
            final(self).keys() == old(self).keys(),
            final(self).handlers() == old(self).handlers(),
            final(self).keys().len() == final(self).handlers().len(),
            distinct_routes(final(self).keys()),
            match answer {
                Ok(bytes) => exists|request: Request, response: Response|
                    #![trigger answers(old(self).keys(), old(self).handlers(), request, response)]
                    {
                        &&& parsed_request(buffer@) == Ok::<RequestView, RequestError>(request@)
                        &&& answers(old(self).keys(), old(self).handlers(), request, response)
                        &&& bytes@ == response_bytes(
                            ResponseView {
                                headers: put(response@.headers, Headers::Host.text(), local_addr@),
                                ..response@
                            },
                        )
                    },
                Err(e) => parsed_request(buffer@) == Err::<RequestView, RequestError>(e),
            },
    {
        proof {
            use_type_invariant(&*self);
        }
        match parse_request(buffer) {
            Ok(request) => {
                let ghost asked = request;
                let response = self.handle(request);
                let ghost answered = response;
                let bytes = response.header(Headers::Host, local_addr).to_bytes();
                assert(answers(old(self).keys(), old(self).handlers(), asked, answered));
                Ok(bytes)
            },
            Err(e) => Err(e),
        }
    }
}

} // verus!
