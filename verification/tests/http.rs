//! The HTTP response parser on raw response texts.

use saba_core::http::HttpResponse;

#[test]
fn http_test_invalid() {
    let raw = "HTTP/1.1 200 OK".to_string();
    assert!(HttpResponse::new(raw).is_err());
}

#[test]
fn http_test_status_line_only() {
    let raw = "HTTP/1.1 200 OK\n\n".to_string();
    let res = HttpResponse::new(raw).expect("failed to parse http response");
    assert_eq!(res.version(), "HTTP/1.1");
    assert_eq!(res.status_code(), 200);
    assert_eq!(res.reason(), "OK");
}

#[test]
fn http_test_one_header() {
    let raw = "HTTP/1.1 200 OK\nDate:xx xx xx\n\n".to_string();
    let res = HttpResponse::new(raw).expect("failed to parse http response");
    assert_eq!(res.version(), "HTTP/1.1");
    assert_eq!(res.status_code(), 200);
    assert_eq!(res.reason(), "OK");

    assert_eq!(res.header_value("Date"), Ok("xx xx xx".to_string()));
}

#[test]
fn http_test_two_headers_with_white_space() {
    let raw = "HTTP/1.1 200 OK\nDate: xx xx xx\nContent-Length: 42\n\n".to_string();
    let res = HttpResponse::new(raw).expect("failed to parse http response");
    assert_eq!(res.version(), "HTTP/1.1");
    assert_eq!(res.status_code(), 200);
    assert_eq!(res.reason(), "OK");

    assert_eq!(res.header_value("Date"), Ok("xx xx xx".to_string()));
    assert_eq!(res.header_value("Content-Length"), Ok("42".to_string()));
}

#[test]
fn http_test_body() {
    let raw = "HTTP/1.1 200 OK\nDate: xx xx xx\n\nbody message".to_string();
    let res = HttpResponse::new(raw).expect("failed to parse http response");
    assert_eq!(res.version(), "HTTP/1.1");
    assert_eq!(res.status_code(), 200);
    assert_eq!(res.reason(), "OK");

    assert_eq!(res.header_value("Date"), Ok("xx xx xx".to_string()));

    assert_eq!(res.body(), "body message".to_string());
}

#[test]
fn http_test_crlf_and_missing_header() {
    let raw = "HTTP/1.1 302 Found\r\nLocation: http://example.test/next\r\n\r\n".to_string();
    let res = HttpResponse::new(raw).expect("failed to parse http response");
    assert_eq!(res.status_code(), 302);
    assert_eq!(
        res.header_value("Location"),
        Ok("http://example.test/next".to_string())
    );
    assert!(res.header_value("Date").is_err());
    assert_eq!(res.headers().len(), 1);
}

#[test]
fn http_test_bad_status_word_falls_back() {
    let raw = "HTTP/1.1 abc Whatever\n\n".to_string();
    let res = HttpResponse::new(raw).expect("failed to parse http response");
    assert_eq!(res.status_code(), 404);
}
