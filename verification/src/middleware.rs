//! The middleware chain: an ordered list of response transformations folded
//! around a handler's result. The one middleware compresses a successful
//! response's body with gzip when the request's `accept-encoding` header
//! lists the `gzip` token, replacing `Content-Encoding` and `Content-Length`
//! and leaving `Content-Type` untouched; errors pass through unchanged.
use vstd::prelude::*;

use std::io::Write;

use crate::bytes::{dec_of, find_byte, find_byte_from, lemma_find_byte, bytes_eq, trim, trim_of,
    usize_to_dec};
use crate::handler::HandlerError;
use crate::headers::{insert_entry, lookup};
use crate::request::{Request, RequestV};
use crate::response::{Response, ResponseV};
use crate::tokens::{
    h_content_encoding, h_content_encoding_bytes, h_content_length, h_content_length_bytes,
    hl_accept_encoding, hl_accept_encoding_bytes, token_gzip, token_gzip_bytes,
};
use vstd::slice::{slice_subrange, slice_to_vec};

verus! {

/// The gzip stream that the compressor emits for `data`; a function of the
/// input bytes alone.
pub uninterp spec fn gzip_of(data: Seq<u8>) -> Seq<u8>;

/// Relies on flate2's `write::GzEncoder` at the default compression level.
/// Its output depends on the input bytes alone — `GzEncoder::new` writes a
/// fixed header (zero mtime, operating-system byte 255, chosen by flate2 for
/// reproducible streams) and the deflate body is deterministic — so the
/// result is named `gzip_of(data)`. Writing through the encoder into a `Vec`
/// cannot fail.
#[verifier::external_body]
fn gzip_deflate(data: &Vec<u8>) -> (r: Vec<u8>)
    ensures
        r@ == gzip_of(data@),
{
    let mut e = flate2::write::GzEncoder::new(Vec::new(), flate2::Compression::default());
    e.write_all(data.as_slice()).expect("a Vec sink cannot fail");
    e.finish().expect("a Vec sink cannot fail")
}

/// Whether the comma-separated list `s` contains exactly the token `tok`
/// after trimming ASCII whitespace around each element.
pub open spec fn list_has_token(s: Seq<u8>, tok: Seq<u8>) -> bool
    decreases s.len(),
    via list_has_token_decreases
{
    match find_byte(s, 0x2c) {
        None => trim_of(s) == tok,
        Some(i) => trim_of(s.take(i)) == tok || list_has_token(s.skip(i + 1), tok),
    }
}

#[via_fn]
proof fn list_has_token_decreases(s: Seq<u8>, tok: Seq<u8>) {
    match find_byte(s, 0x2c) {
        Some(i) => {
            lemma_find_byte(s, 0x2c);
        },
        None => {},
    }
}

/// Whether the request's `accept-encoding` header lists the `gzip` token.
pub open spec fn spec_accepts_gzip(headers: Seq<(Seq<u8>, Seq<u8>)>) -> bool {
    match lookup(headers, hl_accept_encoding()) {
        None => false,
        Some(v) => list_has_token(v, token_gzip()),
    }
}

/// Whether the comma-separated list in `v` contains exactly the token `tok`.
fn has_token(v: &[u8], tok: &[u8]) -> (r: bool)
    ensures
        r == list_has_token(v@, tok@),
{
    let n = v.len();
    proof {
        assert(v@.skip(0) =~= v@);
    }
    let mut start: usize = 0;
    loop
        invariant
            0 <= start <= n,
            n == v@.len(),
            list_has_token(v@, tok@) == list_has_token(v@.skip(start as int), tok@),
        decreases n - start,
    {
        match find_byte_from(v, start, 0x2c) {
            None => {
                let t = trim(slice_subrange(v, start, n));
                proof {
                    assert(v@.subrange(start as int, n as int) =~= v@.skip(start as int));
                }
                return bytes_eq(t.as_slice(), tok);
            },
            Some(i) => {
                let t = trim(slice_subrange(v, start, i));
                proof {
                    let rem = v@.skip(start as int);
                    assert(v@.subrange(start as int, i as int) =~= rem.take(i - start));
                    assert(v@.skip(i + 1) =~= rem.skip(i - start + 1));
                }
                if bytes_eq(t.as_slice(), tok) {
                    return true;
                }
                start = i + 1;
            },
        }
    }
}

/// Whether this request accepts a gzip-compressed response.
pub fn accepts_gzip(request: &Request) -> (r: bool)
    ensures
        r == spec_accepts_gzip(request@.headers),
{
    match request.headers.get(hl_accept_encoding_bytes().as_slice()) {
        None => false,
        Some(v) => has_token(v.as_slice(), token_gzip_bytes().as_slice()),
    }
}

/// The compressed form of a response: the body replaced by its gzip stream,
/// `Content-Encoding: gzip` set, `Content-Length` recomputed, every other
/// header — `Content-Type` in particular — untouched.
pub open spec fn spec_compress(resp: ResponseV) -> ResponseV {
    ResponseV {
        status: resp.status,
        headers: insert_entry(
            insert_entry(resp.headers, h_content_encoding(), token_gzip()),
            h_content_length(),
            dec_of(gzip_of(resp.body).len()),
        ),
        body: gzip_of(resp.body),
    }
}

/// Compress a response's body and rewrite its framing headers.
pub fn compress_response(response: Response) -> (r: Response)
    ensures
        r@ == spec_compress(response@),
        response.headers.wf() ==> r.headers.wf(),
        r.status.status_code == response.status.status_code,
{
    let compressed = gzip_deflate(&response.body);
    let mut headers = response.headers;
    headers.insert(h_content_encoding_bytes(), token_gzip_bytes());
    headers.insert(h_content_length_bytes(), usize_to_dec(compressed.len()));
    Response { status: response.status, headers, body: compressed }
}

/// What one run of the compression middleware returns: a success is
/// compressed exactly when the request accepts gzip, an error propagates
/// unchanged.
pub open spec fn spec_middleware(req: RequestV, result: Result<ResponseV, HandlerError>) -> Result<
    ResponseV,
    HandlerError,
> {
    match result {
        Err(e) => Err(e),
        Ok(resp) => if spec_accepts_gzip(req.headers) {
            Ok(spec_compress(resp))
        } else {
            Ok(resp)
        },
    }
}

/// Run the compression middleware over a handler's result.
pub fn gzip_compress_middleware(request: &Request, result: Result<Response, HandlerError>) -> (r:
    Result<Response, HandlerError>)
    ensures
        match r {
            Ok(resp) => spec_middleware(request@, result_view(result)) == Ok::<
                ResponseV,
                HandlerError,
            >(resp@),
            Err(e) => spec_middleware(request@, result_view(result)) == Err::<
                ResponseV,
                HandlerError,
            >(e),
        },
        (match result {
            Ok(resp) => resp.headers.wf() && 0 <= resp.status.status_code,
            Err(_) => true,
        }) ==> (match r {
            Ok(resp) => resp.headers.wf() && 0 <= resp.status.status_code,
            Err(_) => true,
        }),
{
    match result {
        Err(e) => Err(e),
        Ok(resp) => if accepts_gzip(request) {
            Ok(compress_response(resp))
        } else {
            Ok(resp)
        },
    }
}

/// The view of a handler's result.
pub open spec fn result_view(r: Result<Response, HandlerError>) -> Result<
    ResponseV,
    HandlerError,
> {
    match r {
        Ok(resp) => Ok(resp@),
        Err(e) => Err(e),
    }
}

/// The closed set of middlewares a chain can hold.
#[derive(Clone, Copy, PartialEq, Eq, Structural, Debug)]
pub enum MiddlewareKind {
    /// Conditional gzip compression of the response body.
    GzipCompress,
}

/// What one middleware does to a handler's result.
pub open spec fn spec_run_middleware(
    m: MiddlewareKind,
    req: RequestV,
    result: Result<ResponseV, HandlerError>,
) -> Result<ResponseV, HandlerError> {
    match m {
        MiddlewareKind::GzipCompress => spec_middleware(req, result),
    }
}

/// Fold a chain over a handler's result: the first middleware of the list is
/// outermost, so it transforms last.
pub open spec fn spec_apply_chain(
    chain: Seq<MiddlewareKind>,
    req: RequestV,
    result: Result<ResponseV, HandlerError>,
) -> Result<ResponseV, HandlerError>
    decreases chain.len(),
{
    if chain.len() == 0 {
        result
    } else {
        spec_run_middleware(chain[0], req, spec_apply_chain(chain.skip(1), req, result))
    }
}

/// The chain the server runs: compression alone.
pub fn default_chain() -> (r: Vec<MiddlewareKind>)
    ensures
        r@ == seq![MiddlewareKind::GzipCompress],
{
    let mut v: Vec<MiddlewareKind> = Vec::new();
    v.push(MiddlewareKind::GzipCompress);
    proof {
        assert(v@ =~= seq![MiddlewareKind::GzipCompress]);
    }
    v
}

/// Run a middleware chain over a handler's result, innermost first.
pub fn apply_middleware(
    chain: &Vec<MiddlewareKind>,
    request: &Request,
    result: Result<Response, HandlerError>,
) -> (r: Result<Response, HandlerError>)
    ensures
        result_view(r) == spec_apply_chain(chain@, request@, result_view(result)),
        (match result {
            Ok(resp) => resp.headers.wf() && 0 <= resp.status.status_code,
            Err(_) => true,
        }) ==> (match r {
            Ok(resp) => resp.headers.wf() && 0 <= resp.status.status_code,
            Err(_) => true,
        }),
{
    let mut cur = result;
    let mut i: usize = chain.len();
    while i > 0
        invariant
            0 <= i <= chain@.len(),
            result_view(cur) == spec_apply_chain(chain@.skip(i as int), request@, result_view(
                result,
            )),
            (match result {
                Ok(resp) => resp.headers.wf() && 0 <= resp.status.status_code,
                Err(_) => true,
            }) ==> (match cur {
                Ok(resp) => resp.headers.wf() && 0 <= resp.status.status_code,
                Err(_) => true,
            }),
        decreases i,
    {
        i = i - 1;
        let next = match chain[i] {
            MiddlewareKind::GzipCompress => gzip_compress_middleware(request, cur),
        };
        proof {
            assert(chain@.skip(i as int).skip(1) =~= chain@.skip(i + 1));
            assert(chain@.skip(i as int)[0] == chain@[i as int]);
        }
        cur = next;
    }
    proof {
        assert(chain@.skip(0) =~= chain@);
    }
    cur
}

} // verus!
