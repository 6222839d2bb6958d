use std::io::Read;

use http_server::connection::{handle_request, resolve_path, Step};
use http_server::err::HttpError;
use http_server::headers::Encoding;
use http_server::request::{parse_request, Method};
use http_server::response::{build_content, build_content_header, build_response, dec_bytes};
use http_server::route::{handle_path, read_outcome, write_outcome, RoutePlan, Served};

fn respond_bytes(step: Step) -> Vec<u8> {
    match step {
        Step::Respond(b) => b,
        other => panic!("expected a response, got {:?}", other),
    }
}

fn split_response(resp: &[u8]) -> (String, Vec<u8>) {
    let pos = resp
        .windows(4)
        .position(|w| w == b"\r\n\r\n")
        .expect("no blank line in response");
    let head = String::from_utf8(resp[..pos + 2].to_vec()).expect("header block is text");
    let body = resp[pos + 4..].to_vec();
    (head, body)
}

fn gunzip(data: &[u8]) -> Vec<u8> {
    let mut decoder = flate2::read::GzDecoder::new(data);
    let mut out = Vec::new();
    decoder.read_to_end(&mut out).expect("valid gzip stream");
    out
}

#[test]
fn echo_plain_exact_bytes() {
    let req = b"GET /echo/abc HTTP/1.1\r\nHost: localhost:4221\r\n\r\n";
    let resp = respond_bytes(handle_request(req));
    assert_eq!(
        resp,
        b"HTTP/1.1 200 OK\r\nContent-Type: text/plain\r\nContent-Length: 3\r\n\r\nabc\r\n".to_vec()
    );
}

#[test]
fn echo_keeps_inner_slashes() {
    let req = b"GET /echo/a/b/c HTTP/1.1\r\n\r\n";
    let resp = respond_bytes(handle_request(req));
    let (head, body) = split_response(&resp);
    assert!(head.contains("Content-Length: 5"));
    assert_eq!(body, b"a/b/c\r\n".to_vec());
}

#[test]
fn echo_without_argument_is_empty() {
    let req = b"GET /echo HTTP/1.1\r\n\r\n";
    let resp = respond_bytes(handle_request(req));
    assert_eq!(resp, b"HTTP/1.1 200 OK\r\n\r\n".to_vec());
}

#[test]
fn echo_gzip_round_trips() {
    let req = b"GET /echo/abc HTTP/1.1\r\nHost: x\r\nAccept-Encoding: gzip\r\n\r\n";
    let resp = respond_bytes(handle_request(req));
    let (head, body) = split_response(&resp);
    assert!(head.starts_with("HTTP/1.1 200 OK\r\n"));
    assert!(head.contains("Content-Encoding: gzip\r\n"));
    assert!(head.contains("Content-Type: text/plain\r\n"));
    assert!(head.contains(&format!("Content-Length: {}\r\n", body.len())));
    assert_eq!(gunzip(&body), b"abc".to_vec());
}

#[test]
fn echo_gzip_of_longer_text_round_trips() {
    let text = "the-quick-brown-fox-jumps-over-the-lazy-dog-twice-over:\
the-quick-brown-fox-jumps-over-the-lazy-dog";
    let mut req = b"GET /echo/".to_vec();
    req.extend_from_slice(text.as_bytes());
    req.extend_from_slice(b" HTTP/1.1\r\nAccept-Encoding: gzip\r\n\r\n");
    let resp = respond_bytes(handle_request(&req));
    let (_, body) = split_response(&resp);
    assert_ne!(body, text.as_bytes().to_vec());
    assert_eq!(gunzip(&body), text.as_bytes().to_vec());
}

#[test]
fn echo_gzip_among_several_tokens() {
    let req = b"GET /echo/abc HTTP/1.1\r\nAccept-Encoding: invalid-encoding-1, gzip, br\r\n\r\n";
    let resp = respond_bytes(handle_request(req));
    let (head, body) = split_response(&resp);
    assert!(head.contains("Content-Encoding: gzip\r\n"));
    assert_eq!(gunzip(&body), b"abc".to_vec());
}

#[test]
fn echo_invalid_encoding_stays_plain() {
    let req = b"GET /echo/abc HTTP/1.1\r\nAccept-Encoding: deflate\r\n\r\n";
    let resp = respond_bytes(handle_request(req));
    let (head, body) = split_response(&resp);
    assert!(!head.contains("Content-Encoding"));
    assert_eq!(body, b"abc\r\n".to_vec());
}

#[test]
fn header_names_match_case_insensitively() {
    let req = b"GET /echo/abc HTTP/1.1\r\naCCept-ENCodinG: gzip\r\n\r\n";
    let resp = respond_bytes(handle_request(req));
    let (head, _) = split_response(&resp);
    assert!(head.contains("Content-Encoding: gzip\r\n"));
}

#[test]
fn user_agent_is_reflected() {
    let req = b"GET /user-agent HTTP/1.1\r\nHost: x\r\nUser-Agent: foo/1.0\r\n\r\n";
    let resp = respond_bytes(handle_request(req));
    assert_eq!(
        resp,
        b"HTTP/1.1 200 OK\r\nContent-Type: text/plain\r\nContent-Length: 7\r\n\r\nfoo/1.0\r\n"
            .to_vec()
    );
}

#[test]
fn user_agent_absent_reflects_empty() {
    let req = b"GET /user-agent HTTP/1.1\r\nHost: x\r\n\r\n";
    let resp = respond_bytes(handle_request(req));
    let (head, body) = split_response(&resp);
    assert!(head.contains("Content-Length: 0\r\n"));
    assert_eq!(body, b"\r\n".to_vec());
}

#[test]
fn root_is_empty_200_without_content_length() {
    let req = b"GET / HTTP/1.1\r\nHost: x\r\n\r\n";
    let resp = respond_bytes(handle_request(req));
    assert_eq!(resp, b"HTTP/1.1 200 OK\r\n\r\n".to_vec());
    let text = String::from_utf8(resp).unwrap();
    assert!(!text.contains("Content-Length"));
}

#[test]
fn unknown_route_is_404() {
    let req = b"GET /unknown/path HTTP/1.1\r\nHost: x\r\n\r\n";
    let resp = respond_bytes(handle_request(req));
    assert_eq!(resp, b"HTTP/1.1 404 Not Found\r\n\r\n".to_vec());
}

#[test]
fn files_round_trip_through_the_store() {
    let post = b"POST /files/report.txt HTTP/1.1\r\nHost: x\r\n\r\nhello";
    let (rel_w, content) = match handle_request(post) {
        Step::FileWrite(rel, content) => (rel, content),
        other => panic!("expected a file write, got {:?}", other),
    };
    assert_eq!(rel_w, b"report.txt".to_vec());
    assert_eq!(content, b"hello".to_vec());
    let created = build_response(write_outcome(Ok(())));
    assert_eq!(created, b"HTTP/1.1 201 Created\r\n\r\n".to_vec());

    let get = b"GET /files/report.txt HTTP/1.1\r\nHost: x\r\n\r\n";
    let rel_r = match handle_request(get) {
        Step::FileRead(rel) => rel,
        other => panic!("expected a file read, got {:?}", other),
    };
    assert_eq!(rel_r, rel_w);
    let resp = build_response(read_outcome(Ok(content)));
    assert_eq!(
        resp,
        b"HTTP/1.1 200 OK\r\nContent-Type: application/octet-stream\r\nContent-Length: 5\r\n\r\nhello\r\n"
            .to_vec()
    );
}

#[test]
fn missing_file_is_404() {
    let get = b"GET /files/missing.txt HTTP/1.1\r\nHost: x\r\n\r\n";
    match handle_request(get) {
        Step::FileRead(rel) => assert_eq!(rel, b"missing.txt".to_vec()),
        other => panic!("expected a file read, got {:?}", other),
    }
    let resp = build_response(read_outcome(Err(HttpError::NotFoundError)));
    assert_eq!(resp, b"HTTP/1.1 404 Not Found\r\n\r\n".to_vec());
}

#[test]
fn file_with_invalid_text_is_404() {
    let resp = build_response(read_outcome(Ok(vec![0xff, 0xfe, 0x00, 0x01])));
    assert_eq!(resp, b"HTTP/1.1 404 Not Found\r\n\r\n".to_vec());
}

#[test]
fn failed_write_is_500() {
    let resp = build_response(write_outcome(Err(HttpError::IoError)));
    assert_eq!(resp, b"HTTP/1.1 500 Internal Server Error\r\n\r\n".to_vec());
}

#[test]
fn post_outside_files_is_404() {
    let req = b"POST /echo/abc HTTP/1.1\r\nHost: x\r\n\r\nbody";
    let resp = respond_bytes(handle_request(req));
    assert_eq!(resp, b"HTTP/1.1 404 Not Found\r\n\r\n".to_vec());
}

#[test]
fn files_write_keeps_nested_path() {
    let post = b"POST /files/dir/sub/report.txt HTTP/1.1\r\n\r\ncontents";
    match handle_request(post) {
        Step::FileWrite(rel, content) => {
            assert_eq!(rel, b"dir/sub/report.txt".to_vec());
            assert_eq!(content, b"contents".to_vec());
        }
        other => panic!("expected a file write, got {:?}", other),
    }
}

#[test]
fn post_body_keeps_its_line_breaks() {
    let post = b"POST /files/n.txt HTTP/1.1\r\n\r\nline1\r\nline2";
    match handle_request(post) {
        Step::FileWrite(_, content) => assert_eq!(content, b"line1\r\nline2".to_vec()),
        other => panic!("expected a file write, got {:?}", other),
    }
}

#[test]
fn empty_request_aborts() {
    let req = b"\r\nGET / HTTP/1.1\r\n\r\n";
    match handle_request(req) {
        Step::Abort(e) => assert_eq!(e, HttpError::EmptyRequest),
        other => panic!("expected an abort, got {:?}", other),
    }
}

#[test]
fn invalid_utf8_aborts() {
    let req = [0x47u8, 0x45, 0x54, 0x20, 0xff, 0xfe, 0x0d, 0x0a, 0x0d, 0x0a];
    match handle_request(&req) {
        Step::Abort(e) => assert_eq!(e, HttpError::EncodingError),
        other => panic!("expected an abort, got {:?}", other),
    }
}

#[test]
fn unsupported_method_aborts() {
    let req = b"DELETE /echo/abc HTTP/1.1\r\nHost: x\r\n\r\n";
    match handle_request(req) {
        Step::Abort(e) => assert_eq!(e, HttpError::UnsupportedMethod),
        other => panic!("expected an abort, got {:?}", other),
    }
}

#[test]
fn parse_reads_method_path_headers_and_body() {
    let mut buf = b"POST /files/a.txt HTTP/1.1\r\nHost: h\r\nUser-Agent: ua/2\r\n\r\npayload"
        .to_vec();
    buf.resize(2048, 0);
    let req = parse_request(&buf).expect("well-formed request");
    assert_eq!(req.method, Method::Post);
    assert_eq!(req.path, b"/files/a.txt".to_vec());
    assert_eq!(req.headers.host, Some(b"h".to_vec()));
    assert_eq!(req.headers.user_agent, Some(b"ua/2".to_vec()));
    assert_eq!(req.body, b"payload".to_vec());
}

#[test]
fn parse_classifies_every_encoding_token() {
    let buf = b"GET / HTTP/1.1\r\nAccept-Encoding: br, gzip, zstd\r\n\r\n";
    let req = parse_request(buf).expect("well-formed request");
    assert_eq!(
        req.headers.accept_encoding,
        vec![Encoding::Invalid, Encoding::Gzip, Encoding::Invalid]
    );
}

#[test]
fn header_scan_stops_at_line_bound() {
    let req = b"GET /echo/x HTTP/1.1\r\na: 1\r\nb: 2\r\nc: 3\r\nd: 4\r\ne: 5\r\nAccept-Encoding: gzip\r\n\r\n";
    let resp = respond_bytes(handle_request(req));
    let (head, _) = split_response(&resp);
    assert!(!head.contains("Content-Encoding"));
}

#[test]
fn handle_path_routes_the_families() {
    let headers = http_server::headers::Header::default();
    match handle_path(b"/echo/hi", &headers) {
        Ok(RoutePlan::Reply(Served::Text(t))) => assert_eq!(t, b"hi".to_vec()),
        other => panic!("unexpected plan {:?}", other),
    }
    match handle_path(b"/files/x/y", &headers) {
        Ok(RoutePlan::ReadFile(rel)) => assert_eq!(rel, b"x/y".to_vec()),
        other => panic!("unexpected plan {:?}", other),
    }
    match handle_path(b"/", &headers) {
        Ok(RoutePlan::Reply(Served::Empty)) => {}
        other => panic!("unexpected plan {:?}", other),
    }
    match handle_path(b"/nope", &headers) {
        Err(HttpError::UnknownRoute) => {}
        other => panic!("unexpected plan {:?}", other),
    }
}

#[test]
fn build_content_header_orders_the_lines() {
    let head = build_content_header(b"text/plain", Some(b"gzip"), 12);
    assert_eq!(
        head,
        b"HTTP/1.1 200 OK\r\nContent-Encoding: gzip\r\nContent-Type: text/plain\r\nContent-Length: 12\r\n"
            .to_vec()
    );
}

#[test]
fn build_content_overrides_the_length_when_told() {
    let full = build_content(b"hello", b"text/plain", None, Some(99));
    assert_eq!(
        full,
        b"HTTP/1.1 200 OK\r\nContent-Type: text/plain\r\nContent-Length: 99\r\n\r\nhello\r\n"
            .to_vec()
    );
}

#[test]
fn decimal_rendering_is_exact() {
    assert_eq!(dec_bytes(0), b"0".to_vec());
    assert_eq!(dec_bytes(7), b"7".to_vec());
    assert_eq!(dec_bytes(10), b"10".to_vec());
    assert_eq!(dec_bytes(205), b"205".to_vec());
    assert_eq!(dec_bytes(123456789), b"123456789".to_vec());
}

#[test]
fn resolve_path_joins_with_one_slash() {
    assert_eq!(resolve_path(b"/tmp/served", b"a/b.txt"), b"/tmp/served/a/b.txt".to_vec());
}

#[test]
fn concurrent_style_requests_stay_independent() {
    let reqs: Vec<Vec<u8>> = (0..8)
        .map(|i| format!("GET /echo/body-{} HTTP/1.1\r\nHost: x\r\n\r\n", i).into_bytes())
        .collect();
    let responses: Vec<Vec<u8>> = reqs.iter().map(|r| respond_bytes(handle_request(r))).collect();
    for (i, resp) in responses.iter().enumerate() {
        let (_, body) = split_response(resp);
        assert_eq!(body, format!("body-{}\r\n", i).into_bytes());
    }
}
