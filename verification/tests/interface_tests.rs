use std::io::Read;

use http_server::handler::{
    finalize_response, handle_http_request, handle_user_agent, HttpOutcome,
};
use http_server::interface::{
    ForbiddenResponse, HttpHeaders, HttpResponse, InternalServerErrorResponse,
    MethodNotAllowedResponse, NotFoundResponse, OKCreatedResponse, OKResponse,
};
use http_server::server::HttpError;
use http_server::text::{parse_usize, split_whitespace, usize_to_string};
use http_server::utils::{gzip_compress, is_safe_path};

fn request_response(request_line: &str, headers: Vec<&str>, body: &str) -> Vec<u8> {
    let request_line = request_line.to_string();
    let headers: Vec<String> = headers.iter().map(|h| h.to_string()).collect();
    let body = body.to_string();
    match handle_http_request(&request_line, &headers, &body).unwrap() {
        HttpOutcome::Response(bytes) => bytes,
        HttpOutcome::FileRequest(_) => panic!("expected a finished response"),
    }
}

fn split_response(response: &[u8]) -> (String, Vec<u8>) {
    let mut i = 0;
    while i + 4 <= response.len() {
        if &response[i..i + 4] == b"\r\n\r\n" {
            let head = String::from_utf8(response[..i].to_vec()).unwrap();
            return (head, response[i + 4..].to_vec());
        }
        i += 1;
    }
    panic!("response head is not terminated");
}

#[test]
fn headers_serialize_in_insertion_order() {
    let headers = HttpHeaders::new()
        .with_content_type("text/plain")
        .with_content_length("3");
    assert_eq!(
        headers.to_string(),
        "Content-Type: text/plain\r\nContent-Length: 3"
    );
}

#[test]
fn headers_replace_on_same_name() {
    let headers = HttpHeaders::new()
        .with_content_type("text/plain")
        .with_content_type("application/octet-stream");
    assert_eq!(
        headers.to_string(),
        "Content-Type: application/octet-stream"
    );
}

#[test]
fn headers_merge_overwrites() {
    let base = HttpHeaders::new().with_content_type("text/plain");
    let incoming = HttpHeaders::new()
        .with_content_type("application/octet-stream")
        .with_encoding("gzip");
    let merged = base.merge(incoming);
    assert_eq!(
        merged.to_string(),
        "Content-Type: application/octet-stream\r\nContent-Encoding: gzip"
    );
}

#[test]
fn ok_response_serialization_is_exact() {
    let response = OKResponse::new("abc").response();
    assert_eq!(
        response,
        b"HTTP/1.1 200 OK\r\nContent-Type: text/plain\r\nContent-Length: 3\r\n\r\nabc".to_vec()
    );
}

#[test]
fn fixed_responses_serialize_exactly() {
    assert_eq!(
        OKCreatedResponse.response(),
        b"HTTP/1.1 201 Created\r\n\r\n".to_vec()
    );
    assert_eq!(
        NotFoundResponse.response(),
        b"HTTP/1.1 404 Not Found\r\n\r\n".to_vec()
    );
    assert_eq!(
        ForbiddenResponse.response(),
        b"HTTP/1.1 403 Forbidden\r\n\r\n".to_vec()
    );
    assert_eq!(
        MethodNotAllowedResponse.response(),
        b"HTTP/1.1 405 Method Not Allowed\r\n\r\n".to_vec()
    );
    assert_eq!(
        InternalServerErrorResponse.response(),
        b"HTTP/1.1 500 Internal Server Error\r\n\r\n".to_vec()
    );
}

#[test]
fn unknown_routes_get_empty_404() {
    for route in ["/foo", "/echo", "/filesx", "/user-agent2", "/?q=1", "/Echo/foo"] {
        let response = request_response(&format!("GET {} HTTP/1.1", route), vec![], "");
        let (head, body) = split_response(&response);
        assert!(head.starts_with("HTTP/1.1 404 "));
        assert!(body.is_empty());
    }
}

#[test]
fn echo_round_trips_through_gzip() {
    let response = request_response(
        "GET /echo/hello-compression HTTP/1.1",
        vec!["Accept-Encoding: gzip"],
        "",
    );
    let (head, body) = split_response(&response);
    assert!(head.starts_with("HTTP/1.1 200 "));
    assert!(head.contains("Content-Encoding: gzip"));
    assert!(head.contains(&format!("Content-Length: {}", body.len())));
    let mut decoder = flate2::read::GzDecoder::new(&body[..]);
    let mut decoded = Vec::new();
    decoder.read_to_end(&mut decoded).unwrap();
    assert_eq!(decoded, b"hello-compression".to_vec());
}

#[test]
fn gzip_body_is_the_compressor_output() {
    let response = request_response(
        "GET /echo/abc HTTP/1.1",
        vec!["Accept-Encoding: gzip"],
        "",
    );
    let (_, body) = split_response(&response);
    assert_eq!(body, gzip_compress(b"abc"));
    assert_ne!(body, b"abc".to_vec());
}

#[test]
fn echo_empty_suffix_is_ok() {
    let response = request_response("GET /echo/ HTTP/1.1", vec![], "");
    let (head, body) = split_response(&response);
    assert!(head.starts_with("HTTP/1.1 200 "));
    assert!(head.contains("Content-Length: 0"));
    assert!(body.is_empty());
}

#[test]
fn user_agent_missing_header_is_404() {
    let response = request_response("GET /user-agent HTTP/1.1", vec!["Host: x"], "");
    let (head, body) = split_response(&response);
    assert!(head.starts_with("HTTP/1.1 404 "));
    assert!(body.is_empty());
}

#[test]
fn user_agent_takes_first_match() {
    let request_headers: Vec<String> = vec![
        "User-Agent: first".to_string(),
        "User-Agent: second".to_string(),
    ];
    let reply = handle_user_agent(&request_headers);
    let response = finalize_response(reply, false);
    let (head, body) = split_response(&response);
    assert!(head.starts_with("HTTP/1.1 200 "));
    assert_eq!(body, b"first".to_vec());
}

#[test]
fn malformed_request_line_is_a_framing_error() {
    for line in ["GET", "GET /", "GET / HTTP/1.1 extra", "", "   "] {
        let request_line = line.to_string();
        let headers: Vec<String> = vec![];
        let body = String::new();
        match handle_http_request(&request_line, &headers, &body) {
            Err(e) => assert_eq!(e, HttpError::InvalidRequestLine),
            Ok(_) => panic!("a malformed request line must not be answered"),
        }
    }
}

#[test]
fn safe_path_accepts_nested_and_rejects_escapes() {
    let base = Some("/srv/files".to_string());
    assert!(is_safe_path(&Some("/srv/files".to_string()), &base));
    assert!(is_safe_path(&Some("/srv/files/a.txt".to_string()), &base));
    assert!(is_safe_path(&Some("/srv/files/sub/a.txt".to_string()), &base));
    assert!(!is_safe_path(&Some("/srv".to_string()), &base));
    assert!(!is_safe_path(&Some("/srv/filesx".to_string()), &base));
    assert!(!is_safe_path(&Some("/etc/passwd".to_string()), &base));
    assert!(!is_safe_path(&None, &base));
    assert!(!is_safe_path(&Some("/srv/files/a.txt".to_string()), &None));
    assert!(is_safe_path(&Some("/etc".to_string()), &Some("/".to_string())));
}

#[test]
fn decimal_formatting_and_parsing_are_exact() {
    assert_eq!(usize_to_string(0), "0");
    assert_eq!(usize_to_string(7), "7");
    assert_eq!(usize_to_string(1234), "1234");
    assert_eq!(parse_usize("0"), Some(0));
    assert_eq!(parse_usize("1234"), Some(1234));
    assert_eq!(parse_usize(""), None);
    assert_eq!(parse_usize("12a"), None);
    assert_eq!(parse_usize("-3"), None);
    assert_eq!(parse_usize("99999999999999999999999999"), None);
}

#[test]
fn request_line_splits_on_whitespace_runs() {
    let toks = split_whitespace("GET  /   HTTP/1.1");
    assert_eq!(
        toks,
        vec!["GET".to_string(), "/".to_string(), "HTTP/1.1".to_string()]
    );
    let toks = split_whitespace("  ");
    assert!(toks.is_empty());
    let toks = split_whitespace("\tGET\t/ HTTP/1.1\t");
    assert_eq!(toks.len(), 3);
}
