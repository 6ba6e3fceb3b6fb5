//! The decisions of one request/response cycle: resolve a handler's error to
//! the not-found response, honour the request's `connection: close` header,
//! and run the whole pure pipeline — route, handler, middleware, resolution —
//! for the routes that touch nothing outside the request.
use vstd::prelude::*;

use crate::bytes::{lowercase_of, to_lowercase, bytes_eq};
use crate::handler::{
    HandlerError, default_handler, echo_handler, spec_default_response, spec_echo_handler,
    spec_not_found_response, spec_user_agent_handler, unknwon_handler, user_agent_handler,
};
use crate::headers::{insert_entry, lookup};
use crate::middleware::{
    apply_middleware, default_chain, result_view, spec_apply_chain, spec_middleware,
    MiddlewareKind,
};
use crate::request::{Request, RequestV};
use crate::response::{Response, ResponseV};
use crate::router::{router, spec_route, HandlerKind};
use crate::tokens::{
    h_connection, h_connection_bytes, hl_connection, hl_connection_bytes, value_close,
    value_close_bytes,
};
use vstd::pervasive::unreached;

verus! {

/// Whether the request asks for the connection to be closed: its
/// `connection` header equals `close`, compared without regard to case.
pub open spec fn spec_wants_close(headers: Seq<(Seq<u8>, Seq<u8>)>) -> bool {
    match lookup(headers, hl_connection()) {
        None => false,
        Some(v) => lowercase_of(v) == value_close(),
    }
}

/// A handler's result resolved for the wire: an error becomes the not-found
/// response.
pub open spec fn spec_resolve(result: Result<ResponseV, HandlerError>) -> ResponseV {
    match result {
        Ok(resp) => resp,
        Err(_) => spec_not_found_response(),
    }
}

/// The end of one cycle: the resolved response, with `Connection: close`
/// added exactly when the request asked to close, paired with that decision.
pub open spec fn spec_finish(
    headers: Seq<(Seq<u8>, Seq<u8>)>,
    result: Result<ResponseV, HandlerError>,
) -> (ResponseV, bool) {
    let resolved = spec_resolve(result);
    if spec_wants_close(headers) {
        (
            ResponseV {
                status: resolved.status,
                headers: insert_entry(resolved.headers, h_connection(), value_close()),
                body: resolved.body,
            },
            true,
        )
    } else {
        (resolved, false)
    }
}

/// Whether this request asks for the connection to be closed.
pub fn wants_close(request: &Request) -> (r: bool)
    ensures
        r == spec_wants_close(request@.headers),
{
    match request.headers.get(hl_connection_bytes().as_slice()) {
        None => false,
        Some(v) => {
            let lowered = to_lowercase(v.as_slice());
            bytes_eq(lowered.as_slice(), value_close_bytes().as_slice())
        },
    }
}

/// Resolve a handler's result and apply the connection-control decision.
pub fn finish_cycle(request: &Request, result: Result<Response, HandlerError>) -> (r: (
    Response,
    bool,
))
    requires
        result matches Ok(resp) ==> resp.headers.wf() && 0 <= resp.status.status_code,
    ensures
        r.0@ == spec_finish(request@.headers, result_view(result)).0,
        r.1 == spec_finish(request@.headers, result_view(result)).1,
        r.0.headers.wf(),
        0 <= r.0.status.status_code,
{
    let mut resp = match result {
        Ok(resp) => resp,
        Err(_) => match unknwon_handler(request) {
            Ok(resp) => resp,
            Err(_) => unreached(),
        },
    };
    if wants_close(request) {
        resp.headers.insert(h_connection_bytes(), value_close_bytes());
        (resp, true)
    } else {
        (resp, false)
    }
}

/// What the routed handler returns for the routes that read only the
/// request; the file routes, whose handlers touch the filesystem, are out of
/// its domain.
pub open spec fn spec_pure_handler(kind: HandlerKind, req: RequestV) -> Option<
    Result<ResponseV, HandlerError>,
> {
    match kind {
        HandlerKind::Default => Some(Ok(spec_default_response())),
        HandlerKind::Echo => Some(spec_echo_handler(req)),
        HandlerKind::UserAgent => Some(spec_user_agent_handler(req)),
        HandlerKind::NotFound => Some(Ok(spec_not_found_response())),
        HandlerKind::FileRead => None,
        HandlerKind::FileWrite => None,
    }
}

/// One whole cycle over a pure route: route the request, run the handler,
/// fold the middleware chain over its result, resolve, and decide whether to
/// close. `None` exactly on the file routes.
pub open spec fn spec_cycle(req: RequestV) -> Option<(ResponseV, bool)> {
    match spec_pure_handler(spec_route(req.start_line.method, req.start_line.path), req) {
        None => None,
        Some(result) => Some(spec_finish(req.headers, spec_middleware(req, result))),
    }
}

/// Run one cycle for the routes that need nothing but the request; the file
/// routes return `None` and are composed by the caller around its
/// filesystem.
pub fn run_pure_cycle(request: &Request) -> (r: Option<(Response, bool)>)
    ensures
        match r {
            Some(p) => spec_cycle(request@) == Some((p.0@, p.1)) && p.0.headers.wf() && 0
                <= p.0.status.status_code,
            None => spec_cycle(request@) is None,
        },
{
    let kind = router(request);
    let result = match kind {
        HandlerKind::Default => default_handler(request),
        HandlerKind::Echo => echo_handler(request),
        HandlerKind::UserAgent => user_agent_handler(request),
        HandlerKind::NotFound => unknwon_handler(request),
        HandlerKind::FileRead => {
            return None;
        },
        HandlerKind::FileWrite => {
            return None;
        },
    };
    let chain = default_chain();
    let transformed = apply_middleware(&chain, request, result);
    proof {
        let rv = result_view(result);
        assert(chain@.skip(1) =~= Seq::<MiddlewareKind>::empty());
        assert(spec_apply_chain(chain@.skip(1), request@, rv) == rv);
        assert(spec_apply_chain(chain@, request@, rv) == spec_middleware(request@, rv));
    }
    let (resp, close) = finish_cycle(request, transformed);
    Some((resp, close))
}

} // verus!
