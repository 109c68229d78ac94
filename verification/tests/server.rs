use http_server::request::{extract_accept_encoding, extract_body, extract_user_agent, parse_request};
use http_server::route::{
    file_read_response, file_write_response, handle_request, HttpAction,
};
use http_server::server::HttpServer;

fn respond(req: &[u8]) -> Vec<u8> {
    match handle_request(&req.to_vec(), &b"".to_vec()) {
        HttpAction::Respond { response } => response,
        _ => panic!("expected an immediate response"),
    }
}

fn split_head_body(resp: &[u8]) -> (Vec<u8>, Vec<u8>) {
    let sep = b"\r\n\r\n";
    let pos = resp
        .windows(4)
        .position(|w| w == sep)
        .expect("response has a blank line");
    (resp[..pos].to_vec(), resp[pos + 4..].to_vec())
}

#[test]
fn echo_plain_exact_bytes() {
    let resp = respond(b"GET /echo/abc HTTP/1.1\r\nHost: localhost\r\n\r\n");
    let expected: &[u8] =
        b"HTTP/1.1 200 OK\r\nContent-Type: text/plain\r\nContent-Length: 3\r\n\r\nabc";
    assert_eq!(resp, expected.to_vec());
}

#[test]
fn echo_empty_value() {
    let resp = respond(b"GET /echo/ HTTP/1.1\r\n\r\n");
    let expected: &[u8] =
        b"HTTP/1.1 200 OK\r\nContent-Type: text/plain\r\nContent-Length: 0\r\n\r\n";
    assert_eq!(resp, expected.to_vec());
}

#[test]
fn echo_three_digit_content_length() {
    let value = "x".repeat(120);
    let req = format!("GET /echo/{} HTTP/1.1\r\n\r\n", value);
    let resp = respond(req.as_bytes());
    let (head, body) = split_head_body(&resp);
    let head_text = String::from_utf8(head).unwrap();
    assert!(head_text.contains("Content-Length: 120"));
    assert_eq!(body, value.into_bytes());
}

#[test]
fn echo_gzip_round_trip() {
    let resp = respond(b"GET /echo/hello HTTP/1.1\r\nAccept-Encoding: gzip\r\n\r\n");
    let (head, body) = split_head_body(&resp);
    let head_text = String::from_utf8(head).unwrap();
    assert!(head_text.starts_with("HTTP/1.1 200 OK\r\n"));
    assert!(head_text.contains("Content-Encoding: gzip"));
    assert!(head_text.contains(&format!("Content-Length: {}", body.len())));
    let mut decoder = flate2::read::GzDecoder::new(&body[..]);
    let mut plain = Vec::new();
    std::io::Read::read_to_end(&mut decoder, &mut plain).expect("valid gzip stream");
    assert_eq!(plain, b"hello".to_vec());
}

#[test]
fn echo_gzip_token_is_trimmed_in_list() {
    let resp = respond(b"GET /echo/hi HTTP/1.1\r\nAccept-Encoding: deflate, gzip \r\n\r\n");
    let head_text = String::from_utf8(split_head_body(&resp).0).unwrap();
    assert!(head_text.contains("Content-Encoding: gzip"));
}

#[test]
fn echo_gzip_requires_exact_token() {
    let resp = respond(b"GET /echo/hi HTTP/1.1\r\nAccept-Encoding: supergzip\r\n\r\n");
    let head_text = String::from_utf8(split_head_body(&resp).0).unwrap();
    assert!(!head_text.contains("Content-Encoding"));
    assert_eq!(split_head_body(&resp).1, b"hi".to_vec());
}

#[test]
fn user_agent_reflected() {
    let resp = respond(b"GET /user-agent HTTP/1.1\r\nUser-Agent: foo/1.0\r\n\r\n");
    let expected: &[u8] =
        b"HTTP/1.1 200 OK\r\nContent-Type: text/plain\r\nContent-Length: 7\r\n\r\nfoo/1.0";
    assert_eq!(resp, expected.to_vec());
}

#[test]
fn user_agent_missing_is_bad_request() {
    let resp = respond(b"GET /user-agent HTTP/1.1\r\nHost: x\r\n\r\n");
    assert_eq!(resp, b"HTTP/1.1 400 Bad Request\r\n\r\n".to_vec());
}

#[test]
fn user_agent_lookup_is_case_insensitive() {
    let resp = respond(b"GET /user-agent HTTP/1.1\r\nuser-AGENT: curl/8\r\n\r\n");
    let (_, body) = split_head_body(&resp);
    assert_eq!(body, b"curl/8".to_vec());
}

struct MemStore {
    files: Vec<(Vec<u8>, Vec<u8>)>,
}

impl MemStore {
    fn new() -> Self {
        MemStore { files: Vec::new() }
    }

    fn write(&mut self, path: &[u8], contents: &[u8]) {
        for entry in self.files.iter_mut() {
            if entry.0 == path {
                entry.1 = contents.to_vec();
                return;
            }
        }
        self.files.push((path.to_vec(), contents.to_vec()));
    }

    fn read(&self, path: &[u8]) -> Option<Vec<u8>> {
        self.files
            .iter()
            .find(|entry| entry.0 == path)
            .map(|entry| entry.1.clone())
    }
}

#[test]
fn files_post_then_get_round_trip() {
    let root = b"data".to_vec();
    let mut store = MemStore::new();
    let post = b"POST /files/report.txt HTTP/1.1\r\nContent-Length: 5\r\n\r\nhello".to_vec();
    let (path, contents) = match handle_request(&post, &root) {
        HttpAction::WriteFile { path, contents } => (path, contents),
        _ => panic!("POST /files must ask for a write"),
    };
    assert_eq!(path, b"data/report.txt".to_vec());
    assert_eq!(contents, b"hello".to_vec());
    store.write(&path, &contents);
    assert_eq!(
        file_write_response(true),
        b"HTTP/1.1 201 Created\r\n\r\n".to_vec()
    );

    let get = b"GET /files/report.txt HTTP/1.1\r\n\r\n".to_vec();
    let read_path = match handle_request(&get, &root) {
        HttpAction::ReadFile { path } => path,
        _ => panic!("GET /files must ask for a read"),
    };
    assert_eq!(read_path, b"data/report.txt".to_vec());
    let resp = file_read_response(store.read(&read_path));
    let expected: &[u8] = b"HTTP/1.1 200 OK\r\nContent-Type: application/octet-stream\r\nContent-Length: 5\r\n\r\nhello";
    assert_eq!(resp, expected.to_vec());
}

#[test]
fn file_missing_is_not_found() {
    let store = MemStore::new();
    let get = b"GET /files/missing.txt HTTP/1.1\r\n\r\n".to_vec();
    let path = match handle_request(&get, &b"".to_vec()) {
        HttpAction::ReadFile { path } => path,
        _ => panic!("GET /files must ask for a read"),
    };
    let resp = file_read_response(store.read(&path));
    assert_eq!(resp, b"HTTP/1.1 404 Not Found\r\n\r\n".to_vec());
}

#[test]
fn file_write_failure_is_server_error() {
    assert_eq!(
        file_write_response(false),
        b"HTTP/1.1 500 Internal Server Error\r\n\r\n".to_vec()
    );
}

#[test]
fn files_other_method_not_allowed() {
    let resp = respond(b"DELETE /files/x HTTP/1.1\r\n\r\n");
    assert_eq!(resp, b"HTTP/1.1 405 Method Not Allowed\r\n\r\n".to_vec());
}

#[test]
fn post_same_body_twice_is_idempotent() {
    let root = b"d".to_vec();
    let req = b"POST /files/x HTTP/1.1\r\n\r\nsame-bytes".to_vec();
    let mut store = MemStore::new();
    for _ in 0..2 {
        match handle_request(&req, &root) {
            HttpAction::WriteFile { path, contents } => {
                assert_eq!(path, b"d/x".to_vec());
                assert_eq!(contents, b"same-bytes".to_vec());
                store.write(&path, &contents);
            }
            _ => panic!("POST /files must ask for a write"),
        }
    }
    assert_eq!(store.read(b"d/x"), Some(b"same-bytes".to_vec()));
}

#[test]
fn root_greeting() {
    let resp = respond(b"GET / HTTP/1.1\r\n\r\n");
    let (head, body) = split_head_body(&resp);
    assert!(String::from_utf8(head).unwrap().starts_with("HTTP/1.1 200 OK"));
    assert_eq!(body, b"Welcome to the HTTP server".to_vec());
    assert!(!body.is_empty());
}

#[test]
fn unmatched_path_is_not_found() {
    let resp = respond(b"GET /nope HTTP/1.1\r\n\r\n");
    assert_eq!(resp, b"HTTP/1.1 404 Not Found\r\n\r\n".to_vec());
}

#[test]
fn echo_connections_see_their_own_content() {
    for i in 0..16 {
        let req = format!("GET /echo/{} HTTP/1.1\r\n\r\n", i);
        let (_, body) = split_head_body(&respond(req.as_bytes()));
        assert_eq!(body, format!("{}", i).into_bytes());
    }
}

#[test]
fn parse_request_splits_method_and_path() {
    let (method, path) = parse_request(&b"POST /files/a HTTP/1.1\r\nHost: x\r\n\r\n".to_vec());
    assert_eq!(method, b"POST".to_vec());
    assert_eq!(path, b"/files/a".to_vec());
}

#[test]
fn parse_request_short_line_degrades_to_empty() {
    let (method, path) = parse_request(&b"GARBAGE\r\n\r\n".to_vec());
    assert!(method.is_empty());
    assert!(path.is_empty());
}

#[test]
fn extract_user_agent_takes_rest_after_first_separator() {
    let ua = extract_user_agent(&b"GET / HTTP/1.1\r\nUser-Agent: a: b\r\n\r\n".to_vec());
    assert_eq!(ua, Some(b"a: b".to_vec()));
    let none = extract_user_agent(&b"GET / HTTP/1.1\r\nHost: x\r\n\r\n".to_vec());
    assert_eq!(none, None);
}

#[test]
fn extract_accept_encoding_trims_tokens() {
    let toks =
        extract_accept_encoding(&b"GET / HTTP/1.1\r\nAccept-Encoding: gzip , br\r\n\r\n".to_vec());
    assert_eq!(toks, Some(vec![b"gzip".to_vec(), b"br".to_vec()]));
}

#[test]
fn body_is_everything_after_first_blank_line() {
    let body = extract_body(&b"POST /files/x HTTP/1.1\r\n\r\nfirst\r\n\r\nsecond".to_vec());
    assert_eq!(body, b"first\r\n\r\nsecond".to_vec());
    let empty = extract_body(&b"GET / HTTP/1.1\r\nHost: x".to_vec());
    assert!(empty.is_empty());
}

#[test]
fn server_new_records_configuration() {
    let server = HttpServer::new("127.0.0.1:4221", "/srv/files");
    assert_eq!(server.address, "127.0.0.1:4221".to_string());
    assert_eq!(server.root_dir, "/srv/files".to_string());
}
