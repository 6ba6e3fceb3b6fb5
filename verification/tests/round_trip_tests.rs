use http_server::connection::run_pure_cycle;
use http_server::request::Request;
use http_server::response::{Response, Status};
use http_server::headers::HeaderMap;

/// A response-side parser for the test harness: splits the status line, the
/// header lines and the body back out of serialized bytes.
struct ParsedResponse {
    version: Vec<u8>,
    code: u16,
    reason: Vec<u8>,
    headers: Vec<(Vec<u8>, Vec<u8>)>,
    body: Vec<u8>,
}

fn split_line(bytes: &[u8], pos: usize) -> (Vec<u8>, usize) {
    let nl = bytes[pos..].iter().position(|&b| b == b'\n').expect("line feed") + pos;
    assert!(nl >= 1 && bytes[nl - 1] == b'\r', "line must end with CRLF");
    (bytes[pos..nl - 1].to_vec(), nl + 1)
}

fn parse_response(bytes: &[u8]) -> ParsedResponse {
    let (status_line, mut pos) = split_line(bytes, 0);
    assert_eq!(&status_line[..5], b"HTTP/");
    let rest = &status_line[5..];
    let sp1 = rest.iter().position(|&b| b == b' ').expect("space after version");
    let version = rest[..sp1].to_vec();
    let rest2 = &rest[sp1 + 1..];
    let sp2 = rest2.iter().position(|&b| b == b' ').expect("space after code");
    let code: u16 = std::str::from_utf8(&rest2[..sp2]).unwrap().parse().unwrap();
    let reason = rest2[sp2 + 1..].to_vec();
    let mut headers = Vec::new();
    loop {
        let (line, next) = split_line(bytes, pos);
        pos = next;
        if line.is_empty() {
            break;
        }
        let sep = line.windows(2).position(|w| w == b": ").expect("header separator");
        headers.push((line[..sep].to_vec(), line[sep + 2..].to_vec()));
    }
    ParsedResponse { version, code, reason, headers, body: bytes[pos..].to_vec() }
}

fn req(head: &[u8]) -> Request {
    Request::parse(head).expect("head should parse").0
}

#[test]
fn echo_response_round_trips() {
    let request = req(b"GET /echo/roundtrip HTTP/1.1\r\n\r\n");
    let (resp, _) = run_pure_cycle(&request).expect("pure route");
    let parsed = parse_response(&resp.to_bytes());
    assert_eq!(parsed.version, resp.status.version);
    assert_eq!(parsed.code as i16, resp.status.status_code);
    assert_eq!(parsed.reason, resp.status.status);
    assert_eq!(parsed.headers, resp.headers.items);
    assert_eq!(parsed.body, resp.body);
}

#[test]
fn response_with_many_headers_round_trips() {
    let mut headers = HeaderMap::new();
    headers.insert(b"Content-Type".to_vec(), b"text/plain".to_vec());
    headers.insert(b"Content-Length".to_vec(), b"4".to_vec());
    headers.insert(b"Connection".to_vec(), b"close".to_vec());
    headers.insert(b"X-Weird".to_vec(), b"v: with colon".to_vec());
    let resp = Response {
        status: Status {
            version: b"1.1".to_vec(),
            status_code: 201,
            status: b"Created".to_vec(),
        },
        headers,
        body: b"body".to_vec(),
    };
    let parsed = parse_response(&resp.to_bytes());
    assert_eq!(parsed.code, 201);
    assert_eq!(parsed.reason, b"Created".to_vec());
    assert_eq!(parsed.headers, resp.headers.items);
    assert_eq!(parsed.body, b"body".to_vec());
}

#[test]
fn serializer_emits_exact_wire_form() {
    let mut headers = HeaderMap::new();
    headers.insert(b"Content-Length".to_vec(), b"0".to_vec());
    let resp = Response {
        status: Status {
            version: b"1.1".to_vec(),
            status_code: 404,
            status: b"Not Found".to_vec(),
        },
        headers,
        body: Vec::new(),
    };
    assert_eq!(
        resp.to_bytes(),
        b"HTTP/1.1 404 Not Found\r\nContent-Length: 0\r\n\r\n".to_vec()
    );
}
