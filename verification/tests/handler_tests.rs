use http_server::connection::run_pure_cycle;
use http_server::handler::{
    default_handler, echo_handler, files_read_response, files_request_path, files_write_response,
    unknwon_handler, user_agent_handler, HandlerError,
};
use http_server::request::Request;
use http_server::router::{router, HandlerKind};

fn req(head: &[u8]) -> Request {
    Request::parse(head).expect("head should parse").0
}

#[test]
fn router_table_in_priority_order() {
    assert_eq!(router(&req(b"GET / HTTP/1.1\r\n\r\n")), HandlerKind::Default);
    assert_eq!(router(&req(b"GET /echo/x HTTP/1.1\r\n\r\n")), HandlerKind::Echo);
    assert_eq!(router(&req(b"GET /user-agent HTTP/1.1\r\n\r\n")), HandlerKind::UserAgent);
    assert_eq!(router(&req(b"GET /files/x HTTP/1.1\r\n\r\n")), HandlerKind::FileRead);
    assert_eq!(router(&req(b"POST /files/x HTTP/1.1\r\n\r\n")), HandlerKind::FileWrite);
    assert_eq!(router(&req(b"DELETE /files/x HTTP/1.1\r\n\r\n")), HandlerKind::NotFound);
    assert_eq!(router(&req(b"POST /echo/x HTTP/1.1\r\n\r\n")), HandlerKind::NotFound);
    assert_eq!(router(&req(b"GET /nothing HTTP/1.1\r\n\r\n")), HandlerKind::NotFound);
}

#[test]
fn default_route_is_bare_200() {
    let request = req(b"GET / HTTP/1.1\r\n\r\n");
    let (resp, close) = run_pure_cycle(&request).expect("pure route");
    assert!(!close);
    assert_eq!(resp.to_bytes(), b"HTTP/1.1 200 OK\r\n\r\n".to_vec());
    let direct = default_handler(&request).expect("default succeeds");
    assert_eq!(direct.status.status_code, 200);
    assert!(direct.body.is_empty());
    assert_eq!(direct.headers.len(), 0);
}

#[test]
fn unknown_route_is_bare_404() {
    let request = req(b"PUT /x HTTP/1.1\r\n\r\n");
    let (resp, _) = run_pure_cycle(&request).expect("pure route");
    assert_eq!(resp.to_bytes(), b"HTTP/1.1 404 Not Found\r\n\r\n".to_vec());
    let direct = unknwon_handler(&request).expect("fallback succeeds");
    assert_eq!(direct.status.status_code, 404);
}

#[test]
fn echo_returns_segment_verbatim() {
    let request = req(b"GET /echo/abc HTTP/1.1\r\n\r\n");
    let (resp, _) = run_pure_cycle(&request).expect("pure route");
    assert_eq!(
        resp.to_bytes(),
        b"HTTP/1.1 200 OK\r\nContent-Type: text/plain\r\nContent-Length: 3\r\n\r\nabc".to_vec()
    );
}

#[test]
fn echo_of_empty_segment() {
    let request = req(b"GET /echo/ HTTP/1.1\r\n\r\n");
    let (resp, _) = run_pure_cycle(&request).expect("pure route");
    assert_eq!(
        resp.to_bytes(),
        b"HTTP/1.1 200 OK\r\nContent-Type: text/plain\r\nContent-Length: 0\r\n\r\n".to_vec()
    );
}

#[test]
fn echo_multiple_segments_yields_404() {
    let request = req(b"GET /echo/a/b HTTP/1.1\r\n\r\n");
    assert_eq!(echo_handler(&request).err(), Some(HandlerError::InvalidEchoPath));
    let (resp, _) = run_pure_cycle(&request).expect("pure route");
    assert_eq!(resp.status.status_code, 404);
    assert_eq!(resp.to_bytes(), b"HTTP/1.1 404 Not Found\r\n\r\n".to_vec());
}

#[test]
fn echo_without_segment_yields_404() {
    let request = req(b"GET /echo HTTP/1.1\r\n\r\n");
    assert_eq!(echo_handler(&request).err(), Some(HandlerError::InvalidEchoPath));
    let (resp, _) = run_pure_cycle(&request).expect("pure route");
    assert_eq!(resp.status.status_code, 404);
}

#[test]
fn user_agent_echoed_verbatim() {
    let request = req(b"GET /user-agent HTTP/1.1\r\nUser-Agent: curl/7.64.1\r\n\r\n");
    let (resp, _) = run_pure_cycle(&request).expect("pure route");
    assert_eq!(resp.body, b"curl/7.64.1".to_vec());
    assert_eq!(
        resp.to_bytes(),
        b"HTTP/1.1 200 OK\r\nContent-Type: text/plain\r\nContent-Length: 11\r\n\r\ncurl/7.64.1"
            .to_vec()
    );
}

#[test]
fn user_agent_missing_yields_404() {
    let request = req(b"GET /user-agent HTTP/1.1\r\n\r\n");
    assert_eq!(user_agent_handler(&request).err(), Some(HandlerError::MissingUserAgent));
    let (resp, _) = run_pure_cycle(&request).expect("pure route");
    assert_eq!(resp.status.status_code, 404);
}

#[test]
fn files_route_needs_serving_root() {
    let request = req(b"GET /files/data.txt HTTP/1.1\r\n\r\n");
    let r = files_request_path(&None, &request);
    assert_eq!(r.err(), Some(HandlerError::ServingRootNotConfigured));
}

#[test]
fn files_route_validates_path_shape() {
    let dir = Some(b"/tmp/srv/".to_vec());
    let bad = req(b"GET /files HTTP/1.1\r\n\r\n");
    assert_eq!(files_request_path(&dir, &bad).err(), Some(HandlerError::InvalidFilePath));
    let nested = req(b"GET /files/a/b HTTP/1.1\r\n\r\n");
    assert_eq!(files_request_path(&dir, &nested).err(), Some(HandlerError::InvalidFilePath));
    let good = req(b"GET /files/data.txt HTTP/1.1\r\n\r\n");
    assert_eq!(files_request_path(&dir, &good), Ok(b"/tmp/srv/data.txt".to_vec()));
}

#[test]
fn file_write_twice_then_read_back() {
    // The filesystem is simulated by a variable holding the latest write.
    let dir = Some(b"root/".to_vec());
    let write = req(b"POST /files/note HTTP/1.1\r\n\r\n").with_body(b"first".to_vec());
    let path1 = files_request_path(&dir, &write).expect("valid path");
    let mut stored = write.body.clone();
    let ack1 = files_write_response();
    assert_eq!(ack1.status.status_code, 201);
    assert_eq!(ack1.to_bytes(), b"HTTP/1.1 201 Created\r\n\r\n".to_vec());
    assert_eq!(files_read_response(stored.clone()).body, b"first".to_vec());

    let write2 = req(b"POST /files/note HTTP/1.1\r\n\r\n").with_body(b"second".to_vec());
    let path2 = files_request_path(&dir, &write2).expect("valid path");
    assert_eq!(path1, path2);
    stored = write2.body.clone();
    let ack2 = files_write_response();
    assert_eq!(ack2.status.status_code, 201);

    let resp = files_read_response(stored);
    assert_eq!(resp.status.status_code, 200);
    assert_eq!(resp.body, b"second".to_vec());
    assert_eq!(
        resp.to_bytes(),
        b"HTTP/1.1 200 OK\r\nContent-Type: application/octet-stream\r\nContent-Length: 6\r\n\r\nsecond"
            .to_vec()
    );
}
