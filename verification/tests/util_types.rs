use http_sv::body::body_util::Body;
use http_sv::request::request_util::{HttpRequest, StartLine};
use http_sv::response::response_util::StatusLine;
use http_sv::utils::{
    map_insert, HeaderFiled, HttpHeaders, HttpMethod, HttpVersion, Mime, StatusCode, StatusText,
};

#[test]
fn names_as_text() {
    assert_eq!(HttpVersion::V1_0.to_string(), "HTTP/1.0");
    assert_eq!(HttpVersion::V1_1.to_string(), "HTTP/1.1");
    assert_eq!(HttpVersion::V2.to_string(), "HTTP/2");
    assert_eq!(HttpMethod::Get.to_string(), "GET");
    assert_eq!(HttpMethod::Post.to_string(), "POST");
    assert_eq!(StatusCode::OK.to_string(), "200");
    assert_eq!(StatusCode::NotFound.to_string(), "404");
    assert_eq!(StatusText::OK.to_string(), "OK");
    assert_eq!(StatusText::NotFound.to_string(), "NotFound");
    assert_eq!(HeaderFiled::ContentType.to_string(), "Content-Type");
    assert_eq!(HeaderFiled::ContentLength.to_string(), "Content-Length");
    assert_eq!(HeaderFiled::Connection.to_string(), "Connection");
    assert_eq!(HeaderFiled::Date.to_string(), "Date");
    assert_eq!(HeaderFiled::Host.to_string(), "Host");
    assert_eq!(HeaderFiled::Server.to_string(), "Server");
    assert_eq!(HeaderFiled::UserAgent.to_string(), "User-Agent");
    assert_eq!(Mime::ApplicationJson.to_string(), "Application/json");
    assert_eq!(Mime::TextPlain.to_string(), "Text/plain");
}

#[test]
fn headers_set_by_name_and_written_with_a_blank_line() {
    let mut headers = HttpHeaders::new();
    assert_eq!(headers.serialize(), b"\r\n");
    headers.set(HeaderFiled::Host, "a".to_string());
    headers.set(HeaderFiled::Server, "b".to_string());
    headers.set(HeaderFiled::Host, "c".to_string());
    assert_eq!(headers.serialize(), b"Host: c\r\nServer: b\r\n\r\n");
    map_insert(&mut headers.0, "X".to_string(), "y".to_string());
    assert_eq!(headers.serialize(), b"Host: c\r\nServer: b\r\nX: y\r\n\r\n");
}

#[test]
fn default_headers_by_name() {
    let headers = HttpHeaders::dated("now".to_string());
    assert_eq!(headers.0.len(), 3);
    assert_eq!(headers.0.get("Date"), Some(&"now".to_string()));
    assert_eq!(headers.0.get("Host"), Some(&"127.0.0.1:8080".to_string()));
    assert_eq!(headers.0.get("Content-Length"), Some(&"0".to_string()));
    let by_clock = HttpHeaders::default();
    assert!(by_clock.0.get("Date").unwrap().ends_with(" GMT"));
}

#[test]
fn a_status_line_is_set_part_by_part() {
    let mut line = StatusLine::new();
    line.set_version(HttpVersion::V2);
    line.set_status_code(StatusCode::NotFound);
    line.set_status_text(StatusText::NotFound);
    assert_eq!(line.to_string(), "HTTP/2 404 Not Found\r\n");
    assert_eq!(line.to_bytes(), b"HTTP/2 404 Not Found\r\n");
    line.set_version(HttpVersion::V1_1);
    line.set_status_code(StatusCode::OK);
    line.set_status_text(StatusText::OK);
    assert_eq!(line.to_string(), "HTTP/1.1 200 OK\r\n");
    line.set_version(HttpVersion::V1_0);
    assert_eq!(line.version, "HTTP/1.0");
}

#[test]
fn a_request_of_three_parts() {
    let start_line = StartLine {
        method: HttpMethod::Post,
        path: "/a b".to_string(),
        version: HttpVersion::V1_0,
    };
    assert_eq!(start_line.to_string(), "POST /a b HTTP/1.0");
    let mut body = Body::new();
    body.set_body("x".to_string());
    let request = HttpRequest::new(start_line, HttpHeaders::new(), body);
    assert_eq!(request.start_line.path, "/a b");
    assert_eq!(request.body.len(), 3);
    assert_eq!(request.headers.0.len(), 0);
}

#[test]
fn a_start_line_as_text() {
    let request = http_sv::Request::new().method("POST").path("/x");
    assert_eq!(request.start_line.to_string(), "POST /x HTTP/1.1");
}
