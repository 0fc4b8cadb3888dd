use rusty_server::HttpError;
use rusty_server::decimal::decimal_string;
use rusty_server::response::build_response;
use rusty_server::response::handle_404;
use rusty_server::response::resolve_request;

#[test]
fn test_handle_404_file_exists() {
    let expected_content = b"<h1>Custom 404 Page</h1>";

    let result = handle_404(Some(expected_content.to_vec()));

    assert_eq!(result, expected_content, "Should return contents of 404.html");
}

#[test]
fn test_handle_404_file_missing() {
    let result = handle_404(None);

    assert_eq!(
        result,
        b"<h1>404 Not Found</h1>",
        "Should return default 404 content when file missing"
    );
}

#[test]
fn build_response_success() {
    let body = b"<h2>This is the index.html file.</h2>".to_vec();

    let response = build_response(Some(body.clone()), None, "text/html");

    assert_eq!(response.status_line, "HTTP/1.1 200 OK");
    assert_eq!(response.content_type, "text/html");
    assert_eq!(response.body, body);
}

#[test]
fn build_response_header_exact() {
    let response = build_response(Some(b"hello".to_vec()), None, "text/html");

    assert_eq!(
        response.header_string(),
        "HTTP/1.1 200 OK\r\nContent-Type: text/html\r\nContent-Length: 5\r\n\r\n"
    );
}

#[test]
fn build_response_content_length_matches_body() {
    let body = b"0123456789abcdef".to_vec();

    let response = build_response(Some(body), None, "application/octet-stream");
    let header = response.header_string();

    let len_line = header
        .lines()
        .find(|l| l.starts_with("Content-Length"))
        .unwrap();
    let len_val: usize = len_line.split(':').nth(1).unwrap().trim().parse().unwrap();
    assert_eq!(len_val, response.body.len(), "Content-Length header should match actual body size");
}

#[test]
fn build_response_not_found_with_page() {
    let page = b"This is the 404 file.".to_vec();

    let response = build_response(None, Some(page.clone()), "application/octet-stream");

    assert_eq!(response.status_line, "HTTP/1.1 404 NOT FOUND");
    assert_eq!(response.body, page);
}

#[test]
fn build_response_not_found_without_page() {
    let response = build_response(None, None, "application/octet-stream");

    assert_eq!(response.status_line, "HTTP/1.1 404 NOT FOUND");
    assert_eq!(response.body, b"<h1>404 Not Found</h1>");
    assert_eq!(
        response.header_string(),
        "HTTP/1.1 404 NOT FOUND\r\nContent-Type: application/octet-stream\r\nContent-Length: 22\r\n\r\n"
    );
}

#[test]
fn build_response_empty_body_content_length_zero() {
    let response = build_response(Some(Vec::new()), None, "text/html");

    assert_eq!(
        response.header_string(),
        "HTTP/1.1 200 OK\r\nContent-Type: text/html\r\nContent-Length: 0\r\n\r\n"
    );
}

#[test]
fn decimal_string_zero() {
    assert_eq!(decimal_string(0), "0");
}

#[test]
fn decimal_string_round_numbers() {
    assert_eq!(decimal_string(10), "10");
    assert_eq!(decimal_string(65536), "65536");
    assert_eq!(decimal_string(100200), "100200");
}

#[test]
fn resolve_request_full_pipeline() {
    let (path, mime) = resolve_request("GET /crow.jpeg HTTP/1.1\r\nHost: x\r\n\r\n", "static").unwrap();

    assert_eq!(path, "static/crow.jpeg");
    assert_eq!(mime, "image/jpeg");
}

#[test]
fn resolve_request_root_alias() {
    let (path, mime) = resolve_request("GET / HTTP/1.1\r\n\r\n", "static").unwrap();

    assert_eq!(path, "static/index.html");
    assert_eq!(mime, "text/html");
}

#[test]
fn resolve_request_malformed() {
    let err = resolve_request("GET\r\n\r\n", "static").unwrap_err();

    assert!(matches!(err, HttpError::Malformed));
}
