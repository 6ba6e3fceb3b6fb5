//! The router: a fixed rule list over method and path prefix, evaluated
//! top-down with first match winning, always yielding a handler.
use vstd::prelude::*;

use crate::bytes::{bytes_eq, starts_with};
use crate::request::Request;
use crate::tokens::{
    echo_prefix, echo_prefix_bytes, files_prefix, files_prefix_bytes, method_get,
    method_get_bytes, method_post, method_post_bytes, path_root, path_root_bytes,
    user_agent_prefix, user_agent_prefix_bytes,
};

verus! {

/// The closed set of handlers a request can be routed to.
#[derive(Clone, Copy, PartialEq, Eq, Structural, Debug)]
pub enum HandlerKind {
    /// `GET /` exactly.
    Default,
    /// `GET` with path prefix `/echo`.
    Echo,
    /// `GET` with path prefix `/user-agent`.
    UserAgent,
    /// `GET` with path prefix `/files`.
    FileRead,
    /// `POST` with path prefix `/files`.
    FileWrite,
    /// Anything else.
    NotFound,
}

/// The routing rules, in priority order; the first matching rule wins and an
/// unmatched request falls through to the not-found handler.
pub open spec fn spec_route(method: Seq<u8>, path: Seq<u8>) -> HandlerKind {
    if method == method_get() && path == path_root() {
        HandlerKind::Default
    } else if method == method_get() && echo_prefix().is_prefix_of(path) {
        HandlerKind::Echo
    } else if method == method_get() && user_agent_prefix().is_prefix_of(path) {
        HandlerKind::UserAgent
    } else if method == method_get() && files_prefix().is_prefix_of(path) {
        HandlerKind::FileRead
    } else if method == method_post() && files_prefix().is_prefix_of(path) {
        HandlerKind::FileWrite
    } else {
        HandlerKind::NotFound
    }
}

/// Choose the handler for a request by its method and path.
pub fn router(request: &Request) -> (r: HandlerKind)
    ensures
        r == spec_route(request@.start_line.method, request@.start_line.path),
{
    let method = request.start_line.method.as_slice();
    let path = request.start_line.path.as_slice();
    if bytes_eq(method, method_get_bytes().as_slice()) {
        if bytes_eq(path, path_root_bytes().as_slice()) {
            HandlerKind::Default
        } else if starts_with(path, echo_prefix_bytes().as_slice()) {
            HandlerKind::Echo
        } else if starts_with(path, user_agent_prefix_bytes().as_slice()) {
            HandlerKind::UserAgent
        } else if starts_with(path, files_prefix_bytes().as_slice()) {
            HandlerKind::FileRead
        } else {
            HandlerKind::NotFound
        }
    } else if bytes_eq(method, method_post_bytes().as_slice()) {
        if starts_with(path, files_prefix_bytes().as_slice()) {
            HandlerKind::FileWrite
        } else {
            HandlerKind::NotFound
        }
    } else {
        HandlerKind::NotFound
    }
}

} // verus!
