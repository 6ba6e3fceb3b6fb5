//! The laws of the pipeline, each proved over the spec-level models that the
//! executable functions' contracts are stated with: what each route answers,
//! how compression changes a response, and how connection control ends a
//! cycle.
use vstd::prelude::*;

use crate::bytes::{
    dec_of, find_byte, is_digit, lemma_dec_of_digits, lemma_dec_val_of, lemma_find_byte,
    lemma_find_byte_is,
};
use crate::connection::{spec_cycle, spec_finish, spec_pure_handler, spec_resolve, spec_wants_close};
use crate::handler::{
    echo_segment, spec_created_response, spec_default_response, spec_echo_handler,
    spec_file_read_response, spec_files_path, spec_not_found_response, spec_ok_with_body,
    spec_user_agent_handler, HandlerError,
};
use crate::headers::{find_key, insert_entry, lemma_lookup_insert, lookup};
use crate::middleware::{gzip_of, spec_accepts_gzip, spec_compress, spec_middleware};
use crate::request::RequestV;
use crate::response::{
    entry_wire_wf, spec_header_block, spec_header_entry, spec_parse_response,
    spec_parse_response_headers, spec_parse_status_line, spec_serialize, spec_status_line,
    spec_wire_wf, ResponseV, StatusV,
};
use crate::router::{spec_route, HandlerKind};
use crate::request::{find_colon_space, lemma_find_colon_space, lemma_find_colon_space_is,
    spec_line, ParseError};
use crate::tokens::{
    colon_space, crlf, ct_octet_stream, ct_text_plain, echo_prefix, echo_prefix_slash,
    h_connection, h_content_encoding, h_content_length, h_content_type, hl_user_agent,
    http_version_prefix, method_get, path_root, reason_created, reason_not_found, reason_ok,
    token_gzip, user_agent_prefix, value_close, version_11,
};

verus! {

/// A two-entry sequence with distinct names is the result of two insertions
/// into the empty map.
proof fn lemma_two_entries(k1: Seq<u8>, v1: Seq<u8>, k2: Seq<u8>, v2: Seq<u8>)
    requires
        k1 != k2,
    ensures
        seq![(k1, v1), (k2, v2)] == insert_entry(insert_entry(Seq::empty(), k1, v1), k2, v2),
{
    let e0 = Seq::<(Seq<u8>, Seq<u8>)>::empty();
    let e1 = insert_entry(e0, k1, v1);
    assert(find_key(e0, k1) is None);
    assert(e1 =~= seq![(k1, v1)]);
    assert(e1.skip(1) =~= e0);
    assert(find_key(e0, k2) is None);
    assert(find_key(e1, k2) is None);
    assert(insert_entry(e1, k2, v2) =~= seq![(k1, v1), (k2, v2)]);
}

/// What `lookup` sees in the headers of `spec_ok_with_body`: the media type,
/// the decimal length, and nothing else.
proof fn lemma_ok_with_body_headers(content_type: Seq<u8>, body: Seq<u8>, k: Seq<u8>)
    ensures
        lookup(spec_ok_with_body(content_type, body).headers, k) == (if k == h_content_type() {
            Some(content_type)
        } else if k == h_content_length() {
            Some(dec_of(body.len()))
        } else {
            None
        }),
{
    let ct = h_content_type();
    let cl = h_content_length();
    assert(ct.len() == 12 && cl.len() == 14);
    lemma_two_entries(ct, content_type, cl, dec_of(body.len()));
    let e1 = insert_entry(Seq::empty(), ct, content_type);
    lemma_lookup_insert(e1, cl, dec_of(body.len()), k);
    lemma_lookup_insert(Seq::empty(), ct, content_type, k);
}

/// The body-related header names and the connection header name are four
/// distinct names.
proof fn lemma_header_names_distinct()
    ensures
        h_content_type() != h_content_length(),
        h_content_type() != h_content_encoding(),
        h_content_type() != h_connection(),
        h_content_length() != h_content_encoding(),
        h_content_length() != h_connection(),
        h_content_encoding() != h_connection(),
{
    assert(h_content_type().len() == 12);
    assert(h_content_length().len() == 14);
    assert(h_content_encoding().len() == 16);
    assert(h_connection().len() == 10);
}

/// For every request `GET /` whose headers do not accept gzip, the cycle
/// answers exactly status 200 with an empty body and no body-related
/// headers, whatever the connection-control decision.
pub proof fn lemma_default_route_response(req: RequestV)
    requires
        req.start_line.method == method_get(),
        req.start_line.path == path_root(),
        !spec_accepts_gzip(req.headers),
    ensures
        spec_route(req.start_line.method, req.start_line.path) == HandlerKind::Default,
        spec_cycle(req) matches Some(p) && p.0.status.code == 200 && p.0.body.len() == 0 && lookup(
            p.0.headers,
            h_content_type(),
        ) is None && lookup(p.0.headers, h_content_length()) is None && lookup(
            p.0.headers,
            h_content_encoding(),
        ) is None,
{
    let base = spec_default_response();
    assert(spec_middleware(req, Ok(base)) == Ok::<ResponseV, HandlerError>(base));
    lemma_header_names_distinct();
    assert(h_connection().len() == 10 && h_content_type().len() == 12);
    if spec_wants_close(req.headers) {
        lemma_lookup_insert(base.headers, h_connection(), value_close(), h_content_type());
        lemma_lookup_insert(base.headers, h_connection(), value_close(), h_content_length());
        lemma_lookup_insert(base.headers, h_connection(), value_close(), h_content_encoding());
    }
}

/// For every `GET /echo/<s>` where `<s>` holds no separator and the request
/// does not accept gzip, the cycle answers 200 with body exactly `<s>`,
/// `Content-Type: text/plain`, and `Content-Length` the decimal length of
/// `<s>`.
pub proof fn lemma_echo_response(req: RequestV, s: Seq<u8>)
    requires
        req.start_line.method == method_get(),
        req.start_line.path == echo_prefix_slash() + s,
        find_byte(s, 0x2f) is None,
        !spec_accepts_gzip(req.headers),
    ensures
        spec_route(req.start_line.method, req.start_line.path) == HandlerKind::Echo,
        echo_segment(req.start_line.path) == Some(s),
        spec_cycle(req) matches Some(p) && p.0.status.code == 200 && p.0.body == s && lookup(
            p.0.headers,
            h_content_type(),
        ) == Some(ct_text_plain()) && lookup(p.0.headers, h_content_length()) == Some(
            dec_of(s.len()),
        ),
{
    let path = req.start_line.path;
    let pre = echo_prefix_slash();
    assert(pre.len() == 6);
    assert forall|i: int| 0 <= i < 6 implies path[i] == pre[i] by {}
    assert(path[0] == 0x2f);
    assert(path.len() != 1 || s.len() == 0);
    // route: the path is not the root and carries the echo prefix
    assert(path != path_root()) by {
        assert(path[1] == 0x65);
        assert(path_root().len() == 1);
    }
    assert(echo_prefix().is_prefix_of(path)) by {
        assert(echo_prefix().len() == 5);
        assert(path.take(5) =~= echo_prefix());
    }
    // the echo segment is exactly s
    lemma_find_byte_is(path, 0x2f, 0);
    let tail = path.skip(1);
    assert forall|i: int| 0 <= i < 5 implies tail[i] == pre[i + 1] by {}
    assert(tail[4] == 0x2f);
    lemma_find_byte(s, 0x2f);
    assert forall|i: int| 0 <= i < 4 implies tail[i] != 0x2f by {}
    lemma_find_byte_is(tail, 0x2f, 4);
    let seg = tail.skip(5);
    assert(seg =~= s);
    assert(echo_segment(path) == Some(s));
    assert(spec_echo_handler(req) == Ok::<ResponseV, HandlerError>(
        spec_ok_with_body(ct_text_plain(), s),
    ));
    let base = spec_ok_with_body(ct_text_plain(), s);
    assert(spec_middleware(req, Ok(base)) == Ok::<ResponseV, HandlerError>(base));
    lemma_ok_with_body_headers(ct_text_plain(), s, h_content_type());
    lemma_ok_with_body_headers(ct_text_plain(), s, h_content_length());
    lemma_header_names_distinct();
    if spec_wants_close(req.headers) {
        lemma_lookup_insert(base.headers, h_connection(), value_close(), h_content_type());
        lemma_lookup_insert(base.headers, h_connection(), value_close(), h_content_length());
    }
}

/// A `GET` under the echo prefix whose remainder is not a single segment —
/// `/echo/a/b` among them — fails in the handler, and the emitted response
/// is the 404 fallback.
pub proof fn lemma_echo_invalid_path(req: RequestV)
    requires
        req.start_line.method == method_get(),
        echo_prefix().is_prefix_of(req.start_line.path),
        echo_segment(req.start_line.path) is None,
    ensures
        spec_route(req.start_line.method, req.start_line.path) == HandlerKind::Echo,
        spec_cycle(req) matches Some(p) && p.0.status.code == 404 && p.0.body.len() == 0,
{
    let path = req.start_line.path;
    assert(path != path_root()) by {
        assert(echo_prefix().len() == 5);
        assert(path.len() >= 5);
        assert(path_root().len() == 1);
    }
    assert(spec_echo_handler(req) == Err::<ResponseV, HandlerError>(HandlerError::InvalidEchoPath));
    let e: Result<ResponseV, HandlerError> = Err(HandlerError::InvalidEchoPath);
    assert(spec_middleware(req, e) == e);
    assert(spec_resolve(e) == spec_not_found_response());
}

/// For every `GET` under the user-agent route carrying `user-agent: <x>`,
/// not accepting gzip, the cycle answers 200 with body exactly `<x>`.
pub proof fn lemma_user_agent_response(req: RequestV, x: Seq<u8>)
    requires
        req.start_line.method == method_get(),
        user_agent_prefix().is_prefix_of(req.start_line.path),
        lookup(req.headers, hl_user_agent()) == Some(x),
        !spec_accepts_gzip(req.headers),
    ensures
        spec_route(req.start_line.method, req.start_line.path) == HandlerKind::UserAgent,
        spec_cycle(req) matches Some(p) && p.0.status.code == 200 && p.0.body == x && lookup(
            p.0.headers,
            h_content_type(),
        ) == Some(ct_text_plain()) && lookup(p.0.headers, h_content_length()) == Some(
            dec_of(x.len()),
        ),
{
    let path = req.start_line.path;
    let ua = user_agent_prefix();
    assert(ua.len() == 11);
    assert forall|i: int| 0 <= i < 11 implies path[i] == ua[i] by {}
    assert(path != path_root()) by {
        assert(path_root().len() == 1);
    }
    assert(!echo_prefix().is_prefix_of(path)) by {
        assert(echo_prefix().len() == 5);
        if echo_prefix().is_prefix_of(path) {
            assert(path.take(5)[1] == path[1]);
            assert(echo_prefix()[1] == 0x65);
            assert(path[1] == 0x75);
        }
    }
    assert(spec_user_agent_handler(req) == Ok::<ResponseV, HandlerError>(
        spec_ok_with_body(ct_text_plain(), x),
    ));
    let base = spec_ok_with_body(ct_text_plain(), x);
    assert(spec_middleware(req, Ok(base)) == Ok::<ResponseV, HandlerError>(base));
    lemma_ok_with_body_headers(ct_text_plain(), x, h_content_type());
    lemma_ok_with_body_headers(ct_text_plain(), x, h_content_length());
    lemma_header_names_distinct();
    if spec_wants_close(req.headers) {
        lemma_lookup_insert(base.headers, h_connection(), value_close(), h_content_type());
        lemma_lookup_insert(base.headers, h_connection(), value_close(), h_content_length());
    }
}

/// A `GET` under the user-agent route without a `user-agent` header fails in
/// the handler, and the emitted response is the 404 fallback.
pub proof fn lemma_user_agent_missing(req: RequestV)
    requires
        req.start_line.method == method_get(),
        user_agent_prefix().is_prefix_of(req.start_line.path),
        lookup(req.headers, hl_user_agent()) is None,
    ensures
        spec_route(req.start_line.method, req.start_line.path) == HandlerKind::UserAgent,
        spec_cycle(req) matches Some(p) && p.0.status.code == 404 && p.0.body.len() == 0,
{
    let path = req.start_line.path;
    let ua = user_agent_prefix();
    assert(ua.len() == 11);
    assert forall|i: int| 0 <= i < 11 implies path[i] == ua[i] by {}
    assert(path != path_root()) by {
        assert(path_root().len() == 1);
    }
    assert(!echo_prefix().is_prefix_of(path)) by {
        assert(echo_prefix().len() == 5);
        if echo_prefix().is_prefix_of(path) {
            assert(path.take(5)[1] == path[1]);
            assert(echo_prefix()[1] == 0x65);
            assert(path[1] == 0x75);
        }
    }
    assert(spec_user_agent_handler(req) == Err::<ResponseV, HandlerError>(
        HandlerError::MissingUserAgent,
    ));
    let e: Result<ResponseV, HandlerError> = Err(HandlerError::MissingUserAgent);
    assert(spec_middleware(req, e) == e);
}

/// The pure part of writing then reading a file: every valid write is
/// acknowledged with 201, and serving the latest written bytes returns
/// exactly those bytes, status 200, with a matching `Content-Length`. The
/// filesystem itself is the caller's.
pub proof fn lemma_file_write_read_round(dir: Seq<u8>, path: Seq<u8>, contents: Seq<u8>)
    requires
        spec_files_path(Some(dir), path) is Ok,
    ensures
        spec_created_response().status.code == 201,
        spec_created_response().body.len() == 0,
        spec_file_read_response(contents).status.code == 200,
        spec_file_read_response(contents).body == contents,
        lookup(spec_file_read_response(contents).headers, h_content_length()) == Some(
            dec_of(contents.len()),
        ),
        spec_files_path(Some(dir), path) == Ok::<Seq<u8>, HandlerError>(
            dir + path.skip(7),
        ),
{
    lemma_ok_with_body_headers(crate::tokens::ct_octet_stream(), contents, h_content_length());
}

/// When a request accepts gzip, the middleware compresses every successful
/// response: the body becomes its gzip stream, `Content-Encoding: gzip` is
/// set, `Content-Length` is recomputed to the compressed length, and
/// `Content-Type` is exactly what it was.
pub proof fn lemma_compression_applied(req: RequestV, resp: ResponseV)
    requires
        spec_accepts_gzip(req.headers),
    ensures
        spec_middleware(req, Ok(resp)) matches Ok(c) && c.body == gzip_of(resp.body) && lookup(
            c.headers,
            h_content_encoding(),
        ) == Some(token_gzip()) && lookup(c.headers, h_content_length()) == Some(
            dec_of(gzip_of(resp.body).len()),
        ) && lookup(c.headers, h_content_type()) == lookup(resp.headers, h_content_type()),
{
    lemma_header_names_distinct();
    let e1 = insert_entry(resp.headers, h_content_encoding(), token_gzip());
    let cl_val = dec_of(gzip_of(resp.body).len());
    lemma_lookup_insert(resp.headers, h_content_encoding(), token_gzip(), h_content_encoding());
    lemma_lookup_insert(resp.headers, h_content_encoding(), token_gzip(), h_content_type());
    lemma_lookup_insert(e1, h_content_length(), cl_val, h_content_encoding());
    lemma_lookup_insert(e1, h_content_length(), cl_val, h_content_length());
    lemma_lookup_insert(e1, h_content_length(), cl_val, h_content_type());
}

/// When a request does not accept gzip, the middleware is the identity: the
/// response passes through unchanged and errors propagate unchanged.
pub proof fn lemma_compression_skipped(req: RequestV, result: Result<ResponseV, HandlerError>)
    requires
        !spec_accepts_gzip(req.headers),
    ensures
        spec_middleware(req, result) == result,
{
}

/// A request whose `connection` header reads `close` ends its cycle with the
/// close decision, and the response carries `Connection: close`, whatever
/// the handler returned.
pub proof fn lemma_connection_close(
    headers: Seq<(Seq<u8>, Seq<u8>)>,
    result: Result<ResponseV, HandlerError>,
)
    requires
        spec_wants_close(headers),
    ensures
        spec_finish(headers, result).1 == true,
        lookup(spec_finish(headers, result).0.headers, h_connection()) == Some(value_close()),
        spec_finish(headers, result).0.status == spec_resolve(result).status,
        spec_finish(headers, result).0.body == spec_resolve(result).body,
{
    lemma_lookup_insert(spec_resolve(result).headers, h_connection(), value_close(), h_connection());
}

/// Without a `connection: close` header the cycle keeps the connection open
/// and the resolved response is returned untouched.
pub proof fn lemma_connection_keep(
    headers: Seq<(Seq<u8>, Seq<u8>)>,
    result: Result<ResponseV, HandlerError>,
)
    requires
        !spec_wants_close(headers),
    ensures
        spec_finish(headers, result).1 == false,
        spec_finish(headers, result).0 == spec_resolve(result),
{
}

/// A line whose content holds no line feed, serialized with its terminator,
/// reads back as exactly that content followed by the rest.
proof fn lemma_line_round(content: Seq<u8>, rest: Seq<u8>)
    requires
        forall|i: int| 0 <= i < content.len() ==> content[i] != 0x0a,
    ensures
        spec_line(content + crlf() + rest) == Ok::<(Seq<u8>, Seq<u8>), ParseError>(
            (content, rest),
        ),
{
    let s = content + crlf() + rest;
    let n = content.len() as int;
    assert(crlf().len() == 2);
    assert((content + crlf())[n] == 0x0d);
    assert((content + crlf())[n + 1] == 0x0a);
    assert(s[n] == 0x0d);
    assert(s[n + 1] == 0x0a);
    assert forall|j: int| 0 <= j < n + 1 implies s[j] != 0x0a by {
        if j < n {
            assert(s[j] == content[j]);
        }
    }
    lemma_find_byte_is(s, 0x0a, n + 1);
    assert(s.take(n) =~= content);
    assert(s.skip(n + 2) =~= rest);
}

/// The header block decomposed from the front: the first entry's line, then
/// the block of the remaining entries.
proof fn lemma_header_block_front(entries: Seq<(Seq<u8>, Seq<u8>)>)
    requires
        entries.len() > 0,
    ensures
        spec_header_block(entries) == spec_header_entry(entries[0]) + spec_header_block(
            entries.skip(1),
        ),
    decreases entries.len(),
{
    if entries.len() == 1 {
        assert(entries.drop_last() =~= Seq::<(Seq<u8>, Seq<u8>)>::empty());
        assert(entries.skip(1) =~= Seq::<(Seq<u8>, Seq<u8>)>::empty());
        assert(entries.last() == entries[0]);
        assert(spec_header_block(Seq::empty()) =~= Seq::<u8>::empty());
        assert(spec_header_block(entries) =~= spec_header_entry(entries[0]) + spec_header_block(
            entries.skip(1),
        ));
    } else {
        let dl = entries.drop_last();
        lemma_header_block_front(dl);
        assert(dl[0] == entries[0]);
        assert(dl.skip(1) =~= entries.skip(1).drop_last());
        assert(entries.last() == entries.skip(1).last());
        assert(entries.skip(1).len() > 0);
        assert(spec_header_block(entries) =~= spec_header_entry(entries[0]) + spec_header_block(
            entries.skip(1),
        ));
    }
}

/// A well-formed header block followed by the empty line and the body reads
/// back as exactly its entries and that body.
proof fn lemma_parse_header_block(entries: Seq<(Seq<u8>, Seq<u8>)>, body: Seq<u8>)
    requires
        forall|i: int| 0 <= i < entries.len() ==> entry_wire_wf(#[trigger] entries[i]),
    ensures
        spec_parse_response_headers(spec_header_block(entries) + crlf() + body) == Some(
            (entries, body),
        ),
    decreases entries.len(),
{
    let s = spec_header_block(entries) + crlf() + body;
    if entries.len() == 0 {
        assert(spec_header_block(entries) =~= Seq::<u8>::empty());
        assert(s =~= Seq::<u8>::empty() + crlf() + body);
        lemma_line_round(Seq::empty(), body);
        assert(spec_line(s) == Ok::<(Seq<u8>, Seq<u8>), ParseError>((Seq::empty(), body)));
        assert(entries =~= Seq::<(Seq<u8>, Seq<u8>)>::empty());
    } else {
        let k = entries[0].0;
        let v = entries[0].1;
        assert(entry_wire_wf(entries[0]));
        lemma_header_block_front(entries);
        let rest = spec_header_block(entries.skip(1)) + crlf() + body;
        let content = k + colon_space() + v;
        assert(spec_header_entry(entries[0]) =~= content + crlf());
        assert(s =~= content + crlf() + rest);
        lemma_find_byte(k, 0x0a);
        lemma_find_byte(v, 0x0a);
        assert(colon_space().len() == 2 && colon_space()[0] == 0x3a && colon_space()[1] == 0x20);
        assert forall|i: int| 0 <= i < content.len() implies content[i] != 0x0a by {
            if i < k.len() {
                assert(content[i] == k[i]);
            } else if i < k.len() + 2 {
                assert(content[i] == colon_space()[i - k.len()]);
            } else {
                assert(content[i] == v[i - k.len() - 2]);
            }
        }
        lemma_line_round(content, rest);
        assert(spec_line(s) == Ok::<(Seq<u8>, Seq<u8>), ParseError>((content, rest)));
        assert(content.len() > 0);
        lemma_find_colon_space(k);
        assert forall|j: int| 0 <= j < k.len() implies !(#[trigger] content[j] == 0x3a && content[
            j + 1] == 0x20) by {
            if j + 1 < k.len() {
                assert(content[j] == k[j] && content[j + 1] == k[j + 1]);
            } else {
                assert(content[j + 1] == colon_space()[0]);
            }
        }
        assert(content[k.len() as int] == 0x3a && content[k.len() + 1 as int] == 0x20);
        lemma_find_colon_space_is(content, k.len() as int);
        assert(content.take(k.len() as int) =~= k);
        assert(content.skip(k.len() + 2 as int) =~= v);
        assert forall|i: int| 0 <= i < entries.skip(1).len() implies entry_wire_wf(
            #[trigger] entries.skip(1)[i],
        ) by {
            assert(entries.skip(1)[i] == entries[i + 1]);
        }
        lemma_parse_header_block(entries.skip(1), body);
        assert(seq![(k, v)] + entries.skip(1) =~= entries);
    }
}

/// No byte of a well-formed status line is a line feed.
proof fn lemma_status_line_no_lf(st: StatusV)
    requires
        0 <= st.code,
        find_byte(st.version, 0x0a) is None,
        find_byte(st.reason, 0x0a) is None,
    ensures
        forall|i: int| 0 <= i < spec_status_line(st).len() ==> spec_status_line(st)[i] != 0x0a,
{
    let line = spec_status_line(st);
    let p = http_version_prefix();
    let ver = st.version;
    let dec = dec_of(st.code as nat);
    lemma_find_byte(ver, 0x0a);
    lemma_find_byte(st.reason, 0x0a);
    lemma_dec_of_digits(st.code as nat);
    assert(p.len() == 5);
    assert forall|i: int| 0 <= i < line.len() implies line[i] != 0x0a by {
        let a = 5 + ver.len();
        let b = a + 1 + dec.len();
        if i < 5 {
            assert(line[i] == p[i]);
        } else if i < a {
            assert(line[i] == ver[i - 5]);
        } else if i == a {
            assert(line[i] == 0x20);
        } else if i < b {
            assert(line[i] == dec[i - a - 1]);
            assert(is_digit(dec[i - a - 1]));
        } else if i == b {
            assert(line[i] == 0x20);
        } else {
            assert(line[i] == st.reason[i - b - 1]);
        }
    }
}

/// A well-formed status line reads back as exactly the status it was
/// written from.
proof fn lemma_parse_status_line_round(st: StatusV)
    requires
        0 <= st.code,
        find_byte(st.version, 0x20) is None,
    ensures
        spec_parse_status_line(spec_status_line(st)) == Some(st),
{
    let line = spec_status_line(st);
    let ver = st.version;
    let dec = dec_of(st.code as nat);
    let reason = st.reason;
    assert(http_version_prefix().len() == 5);
    assert(line.take(5) =~= http_version_prefix());
    assert(http_version_prefix().is_prefix_of(line));
    let rest = line.skip(5);
    assert(rest =~= ver + seq![0x20u8] + dec + seq![0x20u8] + reason);
    lemma_find_byte(ver, 0x20);
    assert forall|j: int| 0 <= j < ver.len() implies rest[j] != 0x20 by {
        assert(rest[j] == ver[j]);
    }
    assert(rest[ver.len() as int] == 0x20);
    lemma_find_byte_is(rest, 0x20, ver.len() as int);
    assert(rest.take(ver.len() as int) =~= ver);
    let rest2 = rest.skip(ver.len() + 1 as int);
    assert(rest2 =~= dec + seq![0x20u8] + reason);
    lemma_dec_of_digits(st.code as nat);
    assert forall|j: int| 0 <= j < dec.len() implies rest2[j] != 0x20 by {
        assert(rest2[j] == dec[j]);
        assert(is_digit(dec[j]));
    }
    assert(rest2[dec.len() as int] == 0x20);
    lemma_find_byte_is(rest2, 0x20, dec.len() as int);
    assert(rest2.take(dec.len() as int) =~= dec);
    lemma_dec_val_of(st.code as nat);
    assert(rest2.skip(dec.len() + 1 as int) =~= reason);
}

/// Encode/decode symmetry: serializing a well-formed response and parsing
/// the bytes back reproduces its status, its headers and its body exactly.
pub proof fn lemma_serialize_parse_round_trip(r: ResponseV)
    requires
        spec_wire_wf(r),
    ensures
        spec_parse_response(spec_serialize(r)) == Some(r),
{
    let sl = spec_status_line(r.status);
    let rest = spec_header_block(r.headers) + crlf() + r.body;
    assert(spec_serialize(r) =~= sl + crlf() + rest);
    lemma_status_line_no_lf(r.status);
    lemma_line_round(sl, rest);
    assert(spec_line(spec_serialize(r)) == Ok::<(Seq<u8>, Seq<u8>), ParseError>((sl, rest)));
    lemma_parse_status_line_round(r.status);
    lemma_parse_header_block(r.headers, r.body);
}

/// A concrete byte string with no line feed has none to find.
proof fn lemma_no_lf(c: Seq<u8>)
    requires
        forall|i: int| 0 <= i < c.len() ==> c[i] != 0x0a,
    ensures
        find_byte(c, 0x0a) is None,
{
    lemma_find_byte(c, 0x0a);
    match find_byte(c, 0x0a) {
        Some(i) => {
            assert(c[i] != 0x0a);
        },
        None => {},
    }
}

/// A byte string with no colon holds no `": "` separator.
proof fn lemma_no_colon_space(c: Seq<u8>)
    requires
        forall|i: int| 0 <= i < c.len() ==> c[i] != 0x3a,
    ensures
        find_colon_space(c) is None,
{
    lemma_find_colon_space(c);
    match find_colon_space(c) {
        Some(i) => {
            assert(c[i] != 0x3a);
        },
        None => {},
    }
}

/// The protocol's header names and values are in the shape the wire
/// preserves, and its versions and reasons carry no space or line feed.
proof fn lemma_token_wire_facts()
    ensures
        entry_wire_wf((h_content_type(), ct_text_plain())),
        entry_wire_wf((h_content_type(), ct_octet_stream())),
        entry_wire_wf((h_content_encoding(), token_gzip())),
        entry_wire_wf((h_connection(), value_close())),
        find_byte(version_11(), 0x20) is None,
        find_byte(version_11(), 0x0a) is None,
        find_byte(reason_ok(), 0x0a) is None,
        find_byte(reason_created(), 0x0a) is None,
        find_byte(reason_not_found(), 0x0a) is None,
{
    lemma_no_lf(h_content_type());
    lemma_no_colon_space(h_content_type());
    lemma_no_lf(ct_text_plain());
    lemma_no_lf(ct_octet_stream());
    lemma_no_lf(h_content_encoding());
    lemma_no_colon_space(h_content_encoding());
    lemma_no_lf(token_gzip());
    lemma_no_lf(h_connection());
    lemma_no_colon_space(h_connection());
    lemma_no_lf(value_close());
    lemma_no_lf(version_11());
    lemma_no_lf(reason_ok());
    lemma_no_lf(reason_created());
    lemma_no_lf(reason_not_found());
    assert(find_byte(version_11(), 0x20) is None) by {
        lemma_find_byte(version_11(), 0x20);
        match find_byte(version_11(), 0x20) {
            Some(i) => {
                assert(version_11()[i] != 0x20);
            },
            None => {},
        }
    }
}

/// A `Content-Length` entry carrying a decimal rendering is in the shape the
/// wire preserves.
proof fn lemma_length_entry_wire_wf(n: nat)
    ensures
        entry_wire_wf((h_content_length(), dec_of(n))),
{
    lemma_no_lf(h_content_length());
    lemma_no_colon_space(h_content_length());
    lemma_dec_of_digits(n);
    assert forall|i: int| 0 <= i < dec_of(n).len() implies dec_of(n)[i] != 0x0a by {
        assert(is_digit(dec_of(n)[i]));
    }
    lemma_no_lf(dec_of(n));
}

/// Inserting an entry in the wire-preserving shape keeps every entry in it.
proof fn lemma_insert_preserves_wire_wf(
    entries: Seq<(Seq<u8>, Seq<u8>)>,
    k: Seq<u8>,
    v: Seq<u8>,
)
    requires
        forall|i: int| 0 <= i < entries.len() ==> entry_wire_wf(#[trigger] entries[i]),
        entry_wire_wf((k, v)),
    ensures
        forall|i: int|
            0 <= i < insert_entry(entries, k, v).len() ==> entry_wire_wf(
                #[trigger] insert_entry(entries, k, v)[i],
            ),
{
    crate::headers::lemma_find_key(entries, k);
    let r = insert_entry(entries, k, v);
    match find_key(entries, k) {
        Some(n) => {
            assert forall|i: int| 0 <= i < r.len() implies entry_wire_wf(#[trigger] r[i]) by {
                if i != n {
                    assert(r[i] == entries[i]);
                }
            }
        },
        None => {
            assert forall|i: int| 0 <= i < r.len() implies entry_wire_wf(#[trigger] r[i]) by {
                if i < entries.len() {
                    assert(r[i] == entries[i]);
                }
            }
        },
    }
}

/// The body-carrying 200 response is in the wire-preserving shape whenever
/// its media type holds no line feed.
proof fn lemma_ok_with_body_wire_wf(ct: Seq<u8>, body: Seq<u8>)
    requires
        find_byte(ct, 0x0a) is None,
    ensures
        spec_wire_wf(spec_ok_with_body(ct, body)),
{
    lemma_token_wire_facts();
    lemma_length_entry_wire_wf(body.len());
    lemma_no_colon_space(h_content_type());
    lemma_no_lf(h_content_type());
    let e = spec_ok_with_body(ct, body).headers;
    assert(e[0] == (h_content_type(), ct));
    assert(e[1] == (h_content_length(), dec_of(body.len())));
    assert(entry_wire_wf(e[0]));
    assert(entry_wire_wf(e[1]));
    assert forall|i: int| 0 <= i < e.len() implies entry_wire_wf(#[trigger] e[i]) by {
        if i == 0 {
        } else {
            assert(i == 1);
        }
    }
}

/// Every response the cycle emits — any route, any handler outcome,
/// compressed or not, closing or not — is in the shape the wire preserves,
/// so the round-trip law applies to it.
pub proof fn lemma_cycle_response_wire_wf(req: RequestV)
    ensures
        spec_cycle(req) matches Some(p) ==> spec_wire_wf(p.0),
{
    lemma_token_wire_facts();
    let kind = spec_route(req.start_line.method, req.start_line.path);
    match spec_pure_handler(kind, req) {
        None => {},
        Some(result) => {
            // the resolved response before compression is one of the closed set
            let base: ResponseV = match result {
                Ok(r0) => r0,
                Err(_) => spec_not_found_response(),
            };
            assert(spec_wire_wf(base)) by {
                match kind {
                    HandlerKind::Echo => {
                        if result is Ok {
                            lemma_ok_with_body_wire_wf(
                                ct_text_plain(),
                                echo_segment(req.start_line.path)->Some_0,
                            );
                        }
                    },
                    HandlerKind::UserAgent => {
                        if result is Ok {
                            lemma_ok_with_body_wire_wf(
                                ct_text_plain(),
                                lookup(req.headers, hl_user_agent())->Some_0,
                            );
                        }
                    },
                    _ => {},
                }
            }
            let after = spec_middleware(req, result);
            let resolved: ResponseV = match after {
                Ok(r1) => r1,
                Err(_) => spec_not_found_response(),
            };
            assert(spec_wire_wf(resolved)) by {
                if result is Ok && spec_accepts_gzip(req.headers) {
                    let c = spec_compress(base);
                    lemma_insert_preserves_wire_wf(
                        base.headers,
                        h_content_encoding(),
                        token_gzip(),
                    );
                    lemma_length_entry_wire_wf(gzip_of(base.body).len());
                    lemma_insert_preserves_wire_wf(
                        insert_entry(base.headers, h_content_encoding(), token_gzip()),
                        h_content_length(),
                        dec_of(gzip_of(base.body).len()),
                    );
                }
            }
            if spec_wants_close(req.headers) {
                lemma_insert_preserves_wire_wf(resolved.headers, h_connection(), value_close());
            }
        },
    }
}

} // verus!
