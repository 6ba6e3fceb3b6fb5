use std::io::Read;

use http_server::connection::{finish_cycle, run_pure_cycle, wants_close};
use http_server::handler::echo_handler;
use http_server::headers::HeaderMap;
use http_server::middleware::{accepts_gzip, apply_middleware, default_chain, MiddlewareKind};
use http_server::request::Request;
use http_server::response::{Response, Status};

fn req(head: &[u8]) -> Request {
    Request::parse(head).expect("head should parse").0
}

fn get_header<'a>(resp: &'a Response, name: &[u8]) -> Option<&'a Vec<u8>> {
    resp.headers.get(name)
}

fn gunzip(data: &[u8]) -> Vec<u8> {
    let mut out = Vec::new();
    flate2::read::GzDecoder::new(data).read_to_end(&mut out).expect("valid gzip stream");
    out
}

#[test]
fn gzip_accepted_compresses_echo_body() {
    let request = req(b"GET /echo/hello HTTP/1.1\r\nAccept-Encoding: gzip\r\n\r\n");
    assert!(accepts_gzip(&request));
    let (resp, _) = run_pure_cycle(&request).expect("pure route");
    assert_eq!(get_header(&resp, b"Content-Encoding"), Some(&b"gzip".to_vec()));
    assert_eq!(get_header(&resp, b"Content-Type"), Some(&b"text/plain".to_vec()));
    assert_eq!(
        get_header(&resp, b"Content-Length"),
        Some(&resp.body.len().to_string().into_bytes())
    );
    assert_ne!(resp.body, b"hello".to_vec());
    assert_eq!(gunzip(&resp.body), b"hello".to_vec());
}

#[test]
fn gzip_absent_leaves_body_uncompressed() {
    let request = req(b"GET /echo/hello HTTP/1.1\r\n\r\n");
    assert!(!accepts_gzip(&request));
    let (resp, _) = run_pure_cycle(&request).expect("pure route");
    assert_eq!(resp.body, b"hello".to_vec());
    assert_eq!(get_header(&resp, b"Content-Encoding"), None);
}

#[test]
fn gzip_token_found_in_padded_list() {
    let request = req(b"GET / HTTP/1.1\r\nAccept-Encoding: deflate, gzip , br\r\n\r\n");
    assert!(accepts_gzip(&request));
}

#[test]
fn gzip_token_is_matched_exactly() {
    let request = req(b"GET / HTTP/1.1\r\nAccept-Encoding: gzipped, x-gzip\r\n\r\n");
    assert!(!accepts_gzip(&request));
}

#[test]
fn gzip_applies_to_other_get_routes_too() {
    let request = req(b"GET /user-agent HTTP/1.1\r\nUser-Agent: ua\r\nAccept-Encoding: gzip\r\n\r\n");
    let (resp, _) = run_pure_cycle(&request).expect("pure route");
    assert_eq!(get_header(&resp, b"Content-Encoding"), Some(&b"gzip".to_vec()));
    assert_eq!(gunzip(&resp.body), b"ua".to_vec());
}

#[test]
fn middleware_propagates_handler_errors() {
    let request = req(b"GET /echo/a/b HTTP/1.1\r\nAccept-Encoding: gzip\r\n\r\n");
    let result = echo_handler(&request);
    assert!(result.is_err());
    let chain = default_chain();
    let after = apply_middleware(&chain, &request, result);
    assert!(after.is_err());
}

#[test]
fn empty_middleware_chain_is_identity() {
    let request = req(b"GET /echo/abc HTTP/1.1\r\nAccept-Encoding: gzip\r\n\r\n");
    let result = echo_handler(&request);
    let chain: Vec<MiddlewareKind> = Vec::new();
    let after = apply_middleware(&chain, &request, result).expect("echo succeeds");
    assert_eq!(after.body, b"abc".to_vec());
}

#[test]
fn connection_close_requested() {
    let request = req(b"GET / HTTP/1.1\r\nConnection: close\r\n\r\n");
    assert!(wants_close(&request));
    let (resp, close) = run_pure_cycle(&request).expect("pure route");
    assert!(close);
    assert_eq!(get_header(&resp, b"Connection"), Some(&b"close".to_vec()));
}

#[test]
fn connection_close_value_is_case_insensitive() {
    let request = req(b"GET / HTTP/1.1\r\nConnection: Close\r\n\r\n");
    assert!(wants_close(&request));
}

#[test]
fn connection_kept_open_by_default() {
    let request = req(b"GET / HTTP/1.1\r\n\r\n");
    let (resp, close) = run_pure_cycle(&request).expect("pure route");
    assert!(!close);
    assert_eq!(get_header(&resp, b"Connection"), None);
}

#[test]
fn connection_close_applies_to_error_fallback() {
    let request = req(b"GET /echo/a/b HTTP/1.1\r\nConnection: close\r\n\r\n");
    let (resp, close) = finish_cycle(&request, echo_handler(&request));
    assert!(close);
    assert_eq!(resp.status.status_code, 404);
    assert_eq!(get_header(&resp, b"Connection"), Some(&b"close".to_vec()));
}

#[test]
fn header_map_insert_overwrites_in_place() {
    let mut map = HeaderMap::new();
    map.insert(b"A".to_vec(), b"1".to_vec());
    map.insert(b"B".to_vec(), b"2".to_vec());
    map.insert(b"A".to_vec(), b"3".to_vec());
    assert_eq!(map.len(), 2);
    assert_eq!(map.get(b"A"), Some(&b"3".to_vec()));
    assert_eq!(map.items[0].0, b"A".to_vec());
    assert_eq!(map.items[1].0, b"B".to_vec());
}

#[test]
fn with_body_sets_framing_headers() {
    let base = Response {
        status: Status { version: b"1.1".to_vec(), status_code: 200, status: b"OK".to_vec() },
        headers: HeaderMap::new(),
        body: Vec::new(),
    };
    let resp = base.with_body(b"text/plain", b"hi".to_vec());
    assert_eq!(resp.body, b"hi".to_vec());
    assert_eq!(get_header(&resp, b"Content-Type"), Some(&b"text/plain".to_vec()));
    assert_eq!(get_header(&resp, b"Content-Length"), Some(&b"2".to_vec()));
}

#[test]
fn gzip_token_trimmed_of_tabs_and_spaces() {
    let request = req(b"GET / HTTP/1.1\r\nAccept-Encoding: br ,\tgzip\t\r\n\r\n");
    assert!(accepts_gzip(&request));
}

#[test]
fn gzip_of_empty_body_still_compresses() {
    let request = req(b"GET / HTTP/1.1\r\nAccept-Encoding: gzip\r\n\r\n");
    let (resp, _) = run_pure_cycle(&request).expect("pure route");
    assert_eq!(get_header(&resp, b"Content-Encoding"), Some(&b"gzip".to_vec()));
    assert_eq!(gunzip(&resp.body), Vec::<u8>::new());
}
