//! The handlers: pure functions from a request to a response or an error.
//! The file handlers are split: validation and response construction are
//! here, while the actual reads and writes of the filesystem happen in the
//! caller that owns the serving root.
use vstd::prelude::*;

use crate::bytes::{dec_of, find_byte, find_byte_from, starts_with};
use crate::headers::{HeaderMap, find_key, insert_entry, lookup};
use crate::request::{Request, RequestV};
use crate::response::{Response, ResponseV, Status, StatusV};
use crate::tokens::{
    ct_octet_stream, ct_octet_stream_bytes, ct_text_plain, ct_text_plain_bytes, files_prefix_slash,
    files_prefix_slash_bytes, h_content_length, h_content_type, hl_user_agent, hl_user_agent_bytes,
    reason_created, reason_created_bytes, reason_not_found, reason_not_found_bytes, reason_ok,
    reason_ok_bytes, version_11, version_11_bytes,
};
use vstd::slice::{slice_subrange, slice_to_vec};

verus! {

/// Why a handler declined a request; the connection loop answers any of
/// these with the not-found response.
#[derive(Clone, Copy, PartialEq, Eq, Structural, Debug)]
pub enum HandlerError {
    /// The echo path had no segment, or more than one, after `/echo/`.
    InvalidEchoPath,
    /// The request carried no `user-agent` header.
    MissingUserAgent,
    /// A file handler ran without a serving root configured.
    ServingRootNotConfigured,
    /// The path did not read `/files/<name>` with a single separator.
    InvalidFilePath,
    /// The filesystem read failed.
    FileReadFailed,
    /// The filesystem write failed.
    FileWriteFailed,
}

/// The status line (200, OK).
pub open spec fn spec_status_ok() -> StatusV {
    StatusV { version: version_11(), code: 200, reason: reason_ok() }
}

/// The status line (201, Created).
pub open spec fn spec_status_created() -> StatusV {
    StatusV { version: version_11(), code: 201, reason: reason_created() }
}

/// The status line (404, Not Found).
pub open spec fn spec_status_not_found() -> StatusV {
    StatusV { version: version_11(), code: 404, reason: reason_not_found() }
}

/// The response of the default route: 200, no headers, empty body.
pub open spec fn spec_default_response() -> ResponseV {
    ResponseV { status: spec_status_ok(), headers: Seq::empty(), body: Seq::empty() }
}

/// The response of the not-found fallback: 404, no headers, empty body.
pub open spec fn spec_not_found_response() -> ResponseV {
    ResponseV { status: spec_status_not_found(), headers: Seq::empty(), body: Seq::empty() }
}

/// The response of a successful file write: 201, no headers, empty body.
pub open spec fn spec_created_response() -> ResponseV {
    ResponseV { status: spec_status_created(), headers: Seq::empty(), body: Seq::empty() }
}

/// A 200 response carrying `body` with media type `content_type` and its
/// decimal length.
pub open spec fn spec_ok_with_body(content_type: Seq<u8>, body: Seq<u8>) -> ResponseV {
    ResponseV {
        status: spec_status_ok(),
        headers: seq![
            (h_content_type(), content_type),
            (h_content_length(), dec_of(body.len())),
        ],
        body: body,
    }
}

/// The single path segment after `/echo/`: defined exactly when the path
/// holds two separators, as the bytes after the second one.
pub open spec fn echo_segment(path: Seq<u8>) -> Option<Seq<u8>> {
    match find_byte(path, 0x2f) {
        None => None,
        Some(i) => {
            let tail = path.skip(i + 1);
            match find_byte(tail, 0x2f) {
                None => None,
                Some(j) => {
                    let seg = tail.skip(j + 1);
                    if find_byte(seg, 0x2f) is Some {
                        None
                    } else {
                        Some(seg)
                    }
                },
            }
        },
    }
}

/// What the echo handler returns: the segment after `/echo/` echoed as
/// `text/plain`, or `InvalidEchoPath`.
pub open spec fn spec_echo_handler(req: RequestV) -> Result<ResponseV, HandlerError> {
    match echo_segment(req.start_line.path) {
        None => Err(HandlerError::InvalidEchoPath),
        Some(seg) => Ok(spec_ok_with_body(ct_text_plain(), seg)),
    }
}

/// What the user-agent handler returns: the `user-agent` header value echoed
/// as `text/plain`, or `MissingUserAgent`.
pub open spec fn spec_user_agent_handler(req: RequestV) -> Result<ResponseV, HandlerError> {
    match lookup(req.headers, hl_user_agent()) {
        None => Err(HandlerError::MissingUserAgent),
        Some(ua) => Ok(spec_ok_with_body(ct_text_plain(), ua)),
    }
}

/// The file the path names under the serving root: the root must be
/// configured, the path must read `/files/<name>` with a single separator,
/// and the result is the root and the name concatenated directly.
pub open spec fn spec_files_path(dir: Option<Seq<u8>>, path: Seq<u8>) -> Result<
    Seq<u8>,
    HandlerError,
> {
    match dir {
        None => Err(HandlerError::ServingRootNotConfigured),
        Some(d) => if files_prefix_slash().is_prefix_of(path) && find_byte(path.skip(7), 0x2f)
            is None {
            Ok(d + path.skip(7))
        } else {
            Err(HandlerError::InvalidFilePath)
        },
    }
}

/// The 200 response serving `contents` as `application/octet-stream`.
pub open spec fn spec_file_read_response(contents: Seq<u8>) -> ResponseV {
    spec_ok_with_body(ct_octet_stream(), contents)
}

fn status_ok() -> (r: Status)
    ensures
        r@ == spec_status_ok(),
{
    Status { version: version_11_bytes(), status_code: 200, status: reason_ok_bytes() }
}

fn status_created() -> (r: Status)
    ensures
        r@ == spec_status_created(),
{
    Status { version: version_11_bytes(), status_code: 201, status: reason_created_bytes() }
}

fn status_not_found() -> (r: Status)
    ensures
        r@ == spec_status_not_found(),
{
    Status { version: version_11_bytes(), status_code: 404, status: reason_not_found_bytes() }
}

/// Build the 200 response that carries `body` as `content_type`.
fn ok_with_body(content_type: &[u8], body: Vec<u8>) -> (r: Response)
    ensures
        r@ == spec_ok_with_body(content_type@, body@),
        r.headers.wf(),
        0 <= r.status.status_code,
{
    let base = Response { status: status_ok(), headers: HeaderMap::new(), body: Vec::new() };
    let r = base.with_body(content_type, body);
    proof {
        let ct = h_content_type();
        let cl = h_content_length();
        let e0 = Seq::<(Seq<u8>, Seq<u8>)>::empty();
        let e1 = insert_entry(e0, ct, content_type@);
        assert(find_key(e0, ct) is None);
        assert(e1 =~= seq![(ct, content_type@)]);
        assert(ct.len() == 12 && cl.len() == 14);
        assert(ct != cl);
        assert(e1[0].0 == ct);
        assert(e1.skip(1) =~= e0);
        assert(find_key(e0, cl) is None);
        assert(find_key(e1, cl) is None);
        let e2 = insert_entry(e1, cl, dec_of(body@.len()));
        assert(e2 =~= seq![(ct, content_type@), (cl, dec_of(body@.len()))]);
    }
    r
}

/// The default route: 200 with nothing else.
pub fn default_handler(request: &Request) -> (r: Result<Response, HandlerError>)
    ensures
        r matches Ok(resp) && resp@ == spec_default_response(),
        r matches Ok(resp) ==> resp.headers.wf() && 0 <= resp.status.status_code,
{
    let resp = Response { status: status_ok(), headers: HeaderMap::new(), body: Vec::new() };
    Ok(resp)
}

/// The fallback route: 404 with nothing else.
pub fn unknwon_handler(request: &Request) -> (r: Result<Response, HandlerError>)
    ensures
        r matches Ok(resp) && resp@ == spec_not_found_response(),
        r matches Ok(resp) ==> resp.headers.wf() && 0 <= resp.status.status_code,
{
    let resp = Response { status: status_not_found(), headers: HeaderMap::new(), body: Vec::new() };
    Ok(resp)
}

/// Echo the single path segment after `/echo/`.
pub fn echo_handler(request: &Request) -> (r: Result<Response, HandlerError>)
    ensures
        match r {
            Ok(resp) => spec_echo_handler(request@) == Ok::<ResponseV, HandlerError>(resp@)
                && resp.headers.wf() && 0 <= resp.status.status_code,
            Err(e) => spec_echo_handler(request@) == Err::<ResponseV, HandlerError>(e),
        },
{
    let path = request.start_line.path.as_slice();
    let n = request.start_line.path.len();
    proof {
        assert(path@.skip(0) =~= path@);
    }
    let i = match find_byte_from(path, 0, 0x2f) {
        None => {
            return Err(HandlerError::InvalidEchoPath);
        },
        Some(i) => i,
    };
    let ghost tail = path@.skip(i + 1);
    let j = match find_byte_from(path, i + 1, 0x2f) {
        None => {
            return Err(HandlerError::InvalidEchoPath);
        },
        Some(j) => j,
    };
    let ghost seg = tail.skip(j - i);
    proof {
        assert(seg =~= path@.skip(j + 1));
    }
    match find_byte_from(path, j + 1, 0x2f) {
        None => {},
        Some(_) => {
            return Err(HandlerError::InvalidEchoPath);
        },
    }
    let body = slice_to_vec(slice_subrange(path, j + 1, request.start_line.path.len()));
    proof {
        assert(body@ =~= seg);
    }
    Ok(ok_with_body(ct_text_plain_bytes().as_slice(), body))
}

/// Echo the `user-agent` header value.
pub fn user_agent_handler(request: &Request) -> (r: Result<Response, HandlerError>)
    ensures
        match r {
            Ok(resp) => spec_user_agent_handler(request@) == Ok::<ResponseV, HandlerError>(resp@)
                && resp.headers.wf() && 0 <= resp.status.status_code,
            Err(e) => spec_user_agent_handler(request@) == Err::<ResponseV, HandlerError>(e),
        },
{
    let ua = match request.headers.get(hl_user_agent_bytes().as_slice()) {
        None => {
            return Err(HandlerError::MissingUserAgent);
        },
        Some(ua) => slice_to_vec(ua.as_slice()),
    };
    Ok(ok_with_body(ct_text_plain_bytes().as_slice(), ua))
}

/// The view of an optional serving root.
pub open spec fn opt_bytes(d: Option<Vec<u8>>) -> Option<Seq<u8>> {
    match d {
        None => None,
        Some(v) => Some(v@),
    }
}

/// Validate a file request and name the file it addresses: the serving root
/// and the path's `<name>` concatenated directly.
pub fn files_request_path(directory: &Option<Vec<u8>>, request: &Request) -> (r: Result<
    Vec<u8>,
    HandlerError,
>)
    ensures
        match r {
            Ok(p) => spec_files_path(opt_bytes(*directory), request@.start_line.path) == Ok::<
                Seq<u8>,
                HandlerError,
            >(p@),
            Err(e) => spec_files_path(opt_bytes(*directory), request@.start_line.path) == Err::<
                Seq<u8>,
                HandlerError,
            >(e),
        },
{
    let d = match directory {
        None => {
            return Err(HandlerError::ServingRootNotConfigured);
        },
        Some(d) => d,
    };
    let path = request.start_line.path.as_slice();
    if !starts_with(path, files_prefix_slash_bytes().as_slice()) {
        return Err(HandlerError::InvalidFilePath);
    }
    match find_byte_from(path, 7, 0x2f) {
        None => {},
        Some(_) => {
            return Err(HandlerError::InvalidFilePath);
        },
    }
    let mut p = slice_to_vec(d.as_slice());
    p.extend_from_slice(slice_subrange(path, 7, request.start_line.path.len()));
    proof {
        assert(p@ =~= d@ + path@.skip(7));
    }
    Ok(p)
}

/// Serve bytes read from a file: 200 as `application/octet-stream`.
pub fn files_read_response(contents: Vec<u8>) -> (r: Response)
    ensures
        r@ == spec_file_read_response(contents@),
        r.headers.wf(),
        0 <= r.status.status_code,
{
    ok_with_body(ct_octet_stream_bytes().as_slice(), contents)
}

/// Acknowledge a file write: 201 with nothing else.
pub fn files_write_response() -> (r: Response)
    ensures
        r@ == spec_created_response(),
        r.headers.wf(),
        0 <= r.status.status_code,
{
    Response { status: status_created(), headers: HeaderMap::new(), body: Vec::new() }
}

} // verus!
