use http_server::bytes::{parse_dec, usize_to_dec};
use http_server::request::{ParseError, Request, StartLine};
use http_server::response::Status;

fn parse_ok(head: &[u8]) -> (Request, usize) {
    Request::parse(head).expect("head should parse")
}

#[test]
fn parse_simple_request() {
    let head = b"GET /index HTTP/1.1\r\nHost: example.com\r\n\r\n";
    let (req, used) = parse_ok(head);
    assert_eq!(used, head.len());
    assert_eq!(req.start_line.method, b"GET".to_vec());
    assert_eq!(req.start_line.path, b"/index".to_vec());
    assert_eq!(req.start_line.version, b"1.1".to_vec());
    assert_eq!(req.headers.get(b"host"), Some(&b"example.com".to_vec()));
    assert!(req.body.is_empty());
}

#[test]
fn parse_leaves_later_bytes_unconsumed() {
    let head = b"GET / HTTP/1.1\r\n\r\nEXTRA";
    let (_, used) = parse_ok(head);
    assert_eq!(used, head.len() - 5);
}

#[test]
fn parse_rejects_bare_line_feed() {
    let r = Request::parse(b"GET / HTTP/1.1\n\r\n");
    assert_eq!(r.err(), Some(ParseError::MalformedLineTerminator));
}

#[test]
fn parse_rejects_missing_terminator() {
    let r = Request::parse(b"GET / HTTP/1.1");
    assert_eq!(r.err(), Some(ParseError::MalformedLineTerminator));
}

#[test]
fn parse_rejects_two_token_start_line() {
    let r = Request::parse(b"GET /\r\n\r\n");
    assert_eq!(r.err(), Some(ParseError::MalformedStartLine));
}

#[test]
fn parse_rejects_four_token_start_line() {
    let r = Request::parse(b"GET / extra HTTP/1.1\r\n\r\n");
    assert_eq!(r.err(), Some(ParseError::MalformedStartLine));
}

#[test]
fn parse_rejects_wrong_protocol_name() {
    let r = Request::parse(b"GET / FTP/1.1\r\n\r\n");
    assert_eq!(r.err(), Some(ParseError::MalformedVersion));
}

#[test]
fn parse_rejects_version_without_separator() {
    let r = Request::parse(b"GET / HTTP1.1\r\n\r\n");
    assert_eq!(r.err(), Some(ParseError::MalformedVersion));
}

#[test]
fn parse_rejects_header_without_separator() {
    let r = Request::parse(b"GET / HTTP/1.1\r\nnot-a-header\r\n\r\n");
    assert_eq!(r.err(), Some(ParseError::MalformedHeaderLine));
}

#[test]
fn start_line_parses_three_tokens() {
    let sl = StartLine::parse(b"POST /files/x HTTP/1.0").expect("start line");
    assert_eq!(sl.method, b"POST".to_vec());
    assert_eq!(sl.path, b"/files/x".to_vec());
    assert_eq!(sl.version, b"1.0".to_vec());
}

#[test]
fn header_names_lowercased_and_last_write_wins() {
    let head = b"GET / HTTP/1.1\r\nX-Mark: one\r\nx-mark: two\r\n\r\n";
    let (req, _) = parse_ok(head);
    assert_eq!(req.headers.get(b"x-mark"), Some(&b"two".to_vec()));
    assert_eq!(req.headers.get(b"X-Mark"), None);
    assert_eq!(req.headers.len(), 1);
}

#[test]
fn header_value_keeps_raw_case_and_later_colons() {
    let head = b"GET / HTTP/1.1\r\nAuthorization: Basic A=: B\r\n\r\n";
    let (req, _) = parse_ok(head);
    assert_eq!(req.headers.get(b"authorization"), Some(&b"Basic A=: B".to_vec()));
}

#[test]
fn request_with_body_attaches_bytes() {
    let (req, _) = parse_ok(b"POST /files/a HTTP/1.1\r\n\r\n");
    let req = req.with_body(b"payload".to_vec());
    assert_eq!(req.body, b"payload".to_vec());
    assert_eq!(req.start_line.method, b"POST".to_vec());
}

#[test]
fn decimal_rendering_exact() {
    assert_eq!(usize_to_dec(0), b"0".to_vec());
    assert_eq!(usize_to_dec(7), b"7".to_vec());
    assert_eq!(usize_to_dec(10), b"10".to_vec());
    assert_eq!(usize_to_dec(65535), b"65535".to_vec());
}

#[test]
fn decimal_parsing_exact() {
    assert_eq!(parse_dec(b"0"), Some(0));
    assert_eq!(parse_dec(b"123"), Some(123));
    assert_eq!(parse_dec(b""), None);
    assert_eq!(parse_dec(b"12a"), None);
    assert_eq!(parse_dec(b"99999999999999999999999999"), None);
}

#[test]
fn parse_accepts_empty_version() {
    let (req, _) = parse_ok(b"GET / HTTP/\r\n\r\n");
    assert_eq!(req.start_line.version, b"".to_vec());
}

#[test]
fn parse_rejects_two_slashes_in_version() {
    let r = Request::parse(b"GET / HTTP/1/1\r\n\r\n");
    assert_eq!(r.err(), Some(ParseError::MalformedVersion));
}

#[test]
fn status_line_rendered_exactly() {
    let status = Status { version: b"1.1".to_vec(), status_code: 200, status: b"OK".to_vec() };
    assert_eq!(status.to_bytes(), b"HTTP/1.1 200 OK".to_vec());
}
