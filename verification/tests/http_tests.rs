use minibrowser::http::{
    build_request, parse_header, parse_http_response, parse_status_line, ExchangeError,
};
use minibrowser::text::parse_u16;

#[test]
fn parse_response_status_header_body() {
    let raw = "HTTP/1.1 200 OK\r\nContent-Type: text/plain\r\n\r\nhello";
    let resp = parse_http_response(raw).unwrap();
    assert_eq!(resp.status, 200);
    assert_eq!(resp.headers.len(), 1);
    assert_eq!(resp.headers[0].0, "Content-Type");
    assert_eq!(resp.headers[0].1, "text/plain");
    assert_eq!(resp.body, "hello");
}

#[test]
fn parse_response_garbled_fails() {
    let r = parse_http_response("garbled");
    assert_eq!(r.unwrap_err(), ExchangeError::MalformedStatusLine);
}

#[test]
fn parse_response_empty_fails() {
    let r = parse_http_response("");
    assert_eq!(r.unwrap_err(), ExchangeError::MalformedStatusLine);
}

#[test]
fn parse_response_non_success_status_still_yields_a_response() {
    let raw = "HTTP/1.1 500 Internal Error\r\n\r\noops";
    let resp = parse_http_response(raw).unwrap();
    assert_eq!(resp.status, 500);
    assert_eq!(resp.body, "oops");
}

#[test]
fn parse_response_skips_header_line_without_colon() {
    let raw = "HTTP/1.1 200 OK\r\nGood: yes\r\njunk line\r\nAlso: fine\r\n\r\nbody";
    let resp = parse_http_response(raw).unwrap();
    assert_eq!(resp.headers.len(), 2);
    assert_eq!(resp.headers[0].0, "Good");
    assert_eq!(resp.headers[1].0, "Also");
    assert_eq!(resp.body, "body");
}

#[test]
fn parse_response_without_blank_line_has_empty_body() {
    let raw = "HTTP/1.1 200 OK\r\nA: b";
    let resp = parse_http_response(raw).unwrap();
    assert_eq!(resp.status, 200);
    assert_eq!(resp.headers.len(), 1);
    assert_eq!(resp.body, "");
}

#[test]
fn parse_response_multi_line_body_rejoined() {
    let raw = "HTTP/1.1 200 OK\r\n\r\nline one\r\nline two";
    let resp = parse_http_response(raw).unwrap();
    assert_eq!(resp.body, "line one\nline two");
}

#[test]
fn parse_status_line_splits_three_tokens() {
    let (status, version, reason) = parse_status_line("HTTP/1.1 404 Not Found").unwrap();
    assert_eq!(status, 404);
    assert_eq!(version, "HTTP/1.1");
    assert_eq!(reason, "Not Found");
}

#[test]
fn parse_status_line_too_few_tokens_fails() {
    assert!(parse_status_line("HTTP/1.1 200").is_none());
    assert!(parse_status_line("").is_none());
}

#[test]
fn parse_status_line_bad_code_fails() {
    assert!(parse_status_line("HTTP/1.1 abc OK").is_none());
    assert!(parse_status_line("HTTP/1.1 99999 OK").is_none());
}

#[test]
fn parse_header_splits_and_trims() {
    let (name, value) = parse_header("Content-Type: text/plain").unwrap();
    assert_eq!(name, "Content-Type");
    assert_eq!(value, "text/plain");
    let (name, value) = parse_header("  X-Pad  :  padded  ").unwrap();
    assert_eq!(name, "X-Pad");
    assert_eq!(value, "padded");
}

#[test]
fn parse_header_without_colon_fails() {
    assert!(parse_header("no colon here").is_none());
}

#[test]
fn parse_header_keeps_value_colons() {
    let (name, value) = parse_header("Location: http://h/p").unwrap();
    assert_eq!(name, "Location");
    assert_eq!(value, "http://h/p");
}

#[test]
fn build_request_serializes_the_wire_form() {
    assert_eq!(
        build_request("host", "path"),
        "GET /path HTTP/1.1\r\nHost: host\r\nUser-Agent: Browser\r\n\r\n"
    );
}

#[test]
fn build_request_empty_path_asks_for_root() {
    assert_eq!(
        build_request("host", ""),
        "GET / HTTP/1.1\r\nHost: host\r\nUser-Agent: Browser\r\n\r\n"
    );
}

#[test]
fn parse_u16_reads_decimal_numerals() {
    assert_eq!(parse_u16("0"), Some(0));
    assert_eq!(parse_u16("200"), Some(200));
    assert_eq!(parse_u16("0200"), Some(200));
    assert_eq!(parse_u16("65535"), Some(65535));
    assert_eq!(parse_u16("65536"), None);
    assert_eq!(parse_u16(""), None);
    assert_eq!(parse_u16("12a"), None);
    assert_eq!(parse_u16("-1"), None);
}
