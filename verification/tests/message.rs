use http_sv::body::body::Body as IntoBody;
use http_sv::body::body_util::Body;
use http_sv::error::{ParseError, RequestError};
use http_sv::headers::{
    Headers, HttpHeaders, HttpMethod, HttpVersion, IntoHttpMethod, IntoHttpVersion,
    IntoStatusCode, Mime, StatusCode,
};
use http_sv::request::{parse_request, Request};
use http_sv::response::{HttpResponse, HttpResponseHeader, IntoResponse, Response};
use http_sv::utils::text::{gmt_date, text_eq};
use http_sv::utils::Time;

#[test]
fn test_body_new() {}

#[test]
fn body_util_test1() {
    let mut body = Body::new();
    body.set_body("haha".to_string());
    println!("{:?}", body.serialize());
    assert_eq!(body.serialize(), b"haha\r\n");
}

#[test]
fn request_test1() {
    let req = Request::new();
    let v: Vec<u8> = req.into();
    println!("`{}`", String::from_utf8_lossy(&v));
    assert!(v.starts_with(b"GET / HTTP/1.1\r\nDate: "));
    assert!(v.ends_with(b"Connection: close\r\n\r\n"));
}

#[test]
fn hreader_to_string() {
    let headers = HttpResponseHeader::new().to_string();
    println!("`{}`", headers);
    assert!(headers.starts_with("Host: 127.0.0.1:8080\r\nDate: "));
    assert!(headers.ends_with("Connection: close\r\n\r\n"));
}

#[test]
fn status_line_to_string() {
    let statu_line = http_sv::response::response_util::StatusLine::new();
    let status_line = format!(
        "{} {} {}",
        statu_line.version, statu_line.status_code, statu_line.status_text
    );

    println!("`{}`", status_line);
    assert_eq!(status_line, "HTTP/1.1 200 OK");
    assert_eq!(statu_line.to_string(), "HTTP/1.1 200 OK\r\n");
}

#[test]
fn framing_of_a_request_with_one_header_and_a_body() {
    let request =
        parse_request(b"GET / HTTP/1.1\r\nHost: example.com\r\n\r\nHello,World\r\n").unwrap();
    assert_eq!(*request.method_ref(), HttpMethod::GET);
    assert_eq!(request.path_ref(), "/");
    assert_eq!(*request.version_ref(), HttpVersion::V1_1);
    assert_eq!(request.headers.len(), 1);
    assert_eq!(request.headers.get("Host"), Some(&"example.com".to_string()));
    assert_eq!(request.body_ref().as_slice(), b"Hello,World\r\n");
}

#[test]
fn framing_keeps_an_empty_body_empty() {
    let request = parse_request(b"POST /a HTTP/1.0\r\nHost: h\r\n\r\n").unwrap();
    assert_eq!(*request.method_ref(), HttpMethod::POST);
    assert_eq!(request.path_ref(), "/a");
    assert_eq!(*request.version_ref(), HttpVersion::V1_0);
    assert!(request.body_ref().is_empty());
}

#[test]
fn framing_fails_without_a_blank_line() {
    assert_eq!(
        parse_request(b"GET / HTTP/1.1\r\nHost: example.com\r\n").err(),
        Some(RequestError::ParseError(ParseError::ParseSeparatorErr))
    );
}

#[test]
fn framing_fails_on_a_start_line_with_one_space() {
    assert_eq!(
        parse_request(b"GET /\r\nHost: example.com\r\n\r\n").err(),
        Some(RequestError::ParseError(ParseError::ParseSpaceErr))
    );
    assert_eq!(
        parse_request(b"GET\r\nHost: example.com\r\n\r\n").err(),
        Some(RequestError::ParseError(ParseError::ParseSpaceErr))
    );
}

#[test]
fn framing_fails_without_a_line_break_in_the_header_block() {
    assert_eq!(
        parse_request(b"GET / HTTP/1.1\r\n\r\nbody").err(),
        Some(RequestError::ParseError(ParseError::ParseNewlineErr))
    );
}

#[test]
fn framing_fails_on_no_bytes() {
    assert_eq!(parse_request(b"").err(), Some(RequestError::EmptyRequest));
}

#[test]
fn framing_passes_over_lines_without_colon_space() {
    let request =
        parse_request(b"GET / HTTP/1.1\r\nbroken\r\nA: 1\r\n\rodd\r\nB: 2\r\n\r\n").unwrap();
    assert_eq!(request.headers.len(), 2);
    assert_eq!(request.headers.get("A"), Some(&"1".to_string()));
    assert_eq!(request.headers.get("B"), Some(&"2".to_string()));
}

#[test]
fn framing_lets_the_last_of_two_equal_keys_win() {
    let request = parse_request(b"GET / HTTP/1.1\r\nA: 1\r\nB: 2\r\nA: 3\r\n\r\n").unwrap();
    assert_eq!(request.headers.len(), 2);
    assert_eq!(request.headers.get("A"), Some(&"3".to_string()));
    assert_eq!(request.headers.entry(0), ("A", "3"));
    assert_eq!(request.headers.entry(1), ("B", "2"));
}

#[test]
fn framing_compares_keys_as_they_are_stored() {
    let request = parse_request(b"GET / HTTP/1.1\r\nhost: a\r\nHost: b\r\n\r\n").unwrap();
    assert_eq!(request.headers.len(), 2);
    assert_eq!(request.headers.get("host"), Some(&"a".to_string()));
    assert_eq!(request.headers.get("Host"), Some(&"b".to_string()));
    assert_eq!(request.headers.get("HOST"), None);
}

#[test]
fn framing_falls_back_on_unknown_method_and_version() {
    let request = parse_request(b"BREW /pot HTCPCP/1.0\r\nA: 1\r\n\r\n").unwrap();
    assert_eq!(*request.method_ref(), HttpMethod::GET);
    assert_eq!(*request.version_ref(), HttpVersion::V1_1);
    assert_eq!(request.path_ref(), "/pot");
    let request = parse_request(b"POST /pot HTTP/2\r\nA: 1\r\n\r\n").unwrap();
    assert_eq!(*request.method_ref(), HttpMethod::POST);
    assert_eq!(*request.version_ref(), HttpVersion::V2);
}

#[test]
fn framing_decodes_text_lossily() {
    let request = parse_request(b"GET /\xff HTTP/1.1\r\nK\xff: v\xc3\xa9\r\n\r\n").unwrap();
    assert_eq!(request.path_ref(), "/\u{fffd}");
    assert_eq!(request.headers.get("K\u{fffd}"), Some(&"v\u{e9}".to_string()));
}

#[test]
fn a_request_written_and_framed_again_is_written_the_same() {
    let request = Request::new()
        .method("POST")
        .path("/caf\u{e9}")
        .version("HTTP/1.0")
        .headers(Headers::Host, "example.com")
        .body(b"a: b\r\n\r\nc".to_vec());
    let first: Vec<u8> = request.into();
    let framed = parse_request(&first).unwrap();
    assert_eq!(framed.path_ref(), "/caf\u{e9}");
    assert_eq!(framed.headers.get("Content-Length"), Some(&"11".to_string()));
    let second: Vec<u8> = framed.into();
    assert_eq!(first, second);
}

#[test]
fn a_request_on_the_wire() {
    let bytes = Request::dated("now".to_string()).body(b"hi".to_vec()).to_bytes();
    assert_eq!(
        bytes,
        b"GET / HTTP/1.1\r\nDate: now\r\nHost: 127.0.0.1:8080\r\nContent-Length: 4\r\n\
          Content-Type: text/plain\r\nConnection: close\r\n\r\nhi\r\n"
    );
}

#[test]
fn writing_out_computes_the_content_length_anew() {
    let mut request = Request::dated("now".to_string());
    request.headers.notify("Content-Length", "999");
    request.body = b"12345".to_vec();
    let bytes = request.to_bytes();
    assert_eq!(
        bytes,
        b"GET / HTTP/1.1\r\nDate: now\r\nHost: 127.0.0.1:8080\r\nContent-Length: 5\r\n\
          Content-Type: text/plain\r\nConnection: close\r\n\r\n12345"
    );
}

#[test]
fn a_response_on_the_wire() {
    let bytes = Response::dated(StatusCode::NotFound, "now".to_string())
        .version(HttpVersion::V2)
        .header(Headers::Connection, "keep-alive")
        .body(b"gone".to_vec())
        .to_bytes();
    assert_eq!(
        bytes,
        b"HTTP/2 404 Not Found\r\nDate: now\r\nHost: 127.0.0.1:8080\r\nContent-Length: 6\r\n\
          Content-Type: text/plain\r\nConnection: keep-alive\r\n\r\ngone\r\n"
    );
}

#[test]
fn the_content_length_follows_the_body() {
    let response = Response::new().body(vec![b'x'; 10]);
    assert_eq!(
        response.headers_ref().get("Content-Length"),
        Some(&"12".to_string())
    );
    let response = response.body(Vec::new());
    assert_eq!(response.headers_ref().get("Content-Length"), Some(&"2".to_string()));
    let response = response.body(vec![b'y'; 12345]);
    assert_eq!(
        response.headers_ref().get("Content-Length"),
        Some(&"12347".to_string())
    );
    assert_eq!(response.body_ref().len(), 12347);
    assert_eq!(response.headers_ref().len(), 5);
}

#[test]
fn a_fresh_response() {
    let response = Response::new();
    assert_eq!(*response.status_ref(), StatusCode::OK);
    assert_eq!(*response.version_ref(), HttpVersion::V1_1);
    assert!(response.body_ref().is_empty());
    let headers = response.headers_ref();
    assert_eq!(headers.len(), 5);
    assert!(headers.get("Date").unwrap().ends_with(" GMT"));
    assert_eq!(headers.get("Host"), Some(&"127.0.0.1:8080".to_string()));
    assert_eq!(headers.get("Content-Length"), Some(&"0".to_string()));
    assert_eq!(headers.get("Content-Type"), Some(&"text/plain".to_string()));
    assert_eq!(headers.get("Connection"), Some(&"close".to_string()));
    assert_eq!(*Response::not_found().status_ref(), StatusCode::NotFound);
}

#[test]
fn builders_of_a_response() {
    let response = Response::new().status(404u16).version("HTTP/1.0");
    assert_eq!(*response.status_ref(), StatusCode::NotFound);
    assert_eq!(*response.version_ref(), HttpVersion::V1_0);
    let copy = response.clone();
    assert_eq!(copy.to_bytes(), response.to_bytes());
}

#[test]
fn texts_become_responses() {
    let response = "hello".into_response();
    assert_eq!(*response.status_ref(), StatusCode::OK);
    assert_eq!(response.body_ref().as_slice(), b"hello\r\n");
    assert_eq!(response.headers_ref().get("Content-Length"), Some(&"7".to_string()));
    let text = "caf\u{e9}".to_string();
    assert_eq!(text.into_response().body_ref().as_slice(), b"caf\xc3\xa9\r\n");
    assert_eq!((&text).into_response().body_ref().as_slice(), b"caf\xc3\xa9\r\n");
    let kept = Response::not_found().body(b"x".to_vec());
    assert_eq!(kept.into_response().to_bytes(), kept.to_bytes());
}

#[test]
fn names_of_methods_versions_and_statuses() {
    assert_eq!("GET".into_http_method(), HttpMethod::GET);
    assert_eq!("POST".into_http_method(), HttpMethod::POST);
    assert_eq!("get".into_http_method(), HttpMethod::GET);
    assert_eq!("DELETE".to_string().into_http_method(), HttpMethod::GET);
    assert_eq!((&"POST".to_string()).into_http_method(), HttpMethod::POST);
    assert_eq!(HttpMethod::POST.into_http_method(), HttpMethod::POST);
    assert_eq!(HttpMethod::default(), HttpMethod::GET);
    assert_eq!(HttpMethod::from(&b"POST"[..]), HttpMethod::POST);
    assert_eq!(HttpMethod::from(&b"PUT"[..]), HttpMethod::GET);
    assert_eq!(HttpMethod::POST.to_string(), "POST");
    let bytes: Vec<u8> = HttpMethod::GET.into();
    assert_eq!(bytes, b"GET");

    assert_eq!("HTTP/1.0".into_http_version(), HttpVersion::V1_0);
    assert_eq!("HTTP/1.1".into_http_version(), HttpVersion::V1_1);
    assert_eq!("HTTP/2".into_http_version(), HttpVersion::V2);
    assert_eq!("HTTP/3".into_http_version(), HttpVersion::V1_1);
    assert_eq!(HttpVersion::V2.into_http_version(), HttpVersion::V2);
    assert_eq!(HttpVersion::default(), HttpVersion::V1_1);
    assert_eq!(HttpVersion::from(&b"HTTP/2"[..]), HttpVersion::V2);
    assert_eq!(HttpVersion::from(&b"http/2"[..]), HttpVersion::V1_1);
    assert_eq!(HttpVersion::V1_0.to_string(), "HTTP/1.0");
    let bytes: Vec<u8> = HttpVersion::V1_1.into();
    assert_eq!(bytes, b"HTTP/1.1");

    assert_eq!("OK".into_status_code(), StatusCode::OK);
    assert_eq!("oK".into_status_code(), StatusCode::OK);
    assert_eq!("NotFound".into_status_code(), StatusCode::NotFound);
    assert_eq!("Teapot".to_string().into_status_code(), StatusCode::NotFound);
    assert_eq!((&"ok".to_string()).into_status_code(), StatusCode::OK);
    assert_eq!(200u128.into_status_code(), StatusCode::OK);
    assert_eq!(404u64.into_status_code(), StatusCode::NotFound);
    assert_eq!(500u32.into_status_code(), StatusCode::NotFound);
    assert_eq!(200u16.into_status_code(), StatusCode::OK);
    assert_eq!(StatusCode::OK.into_status_code(), StatusCode::OK);
    assert_eq!(StatusCode::default(), StatusCode::OK);
    let bytes: Vec<u8> = StatusCode::OK.into();
    assert_eq!(bytes, b"200 OK");
    let bytes: Vec<u8> = StatusCode::NotFound.into();
    assert_eq!(bytes, b"404 Not Found");

    assert_eq!(Headers::ContentLength.to_string(), "Content-Length");
    assert_eq!(Headers::ContentType.to_string(), "Content-Type");
    assert_eq!(Mime::TextPlain.to_string(), "text/plain");
    assert_eq!(Mime::ApplicationJson.to_string(), "application/Json");
}

#[test]
fn a_header_map_keeps_one_value_for_each_key() {
    let mut headers = HttpHeaders::new();
    headers.notify("A", "1");
    headers.notify("B", "2");
    headers.notify("A", "3");
    assert_eq!(headers.len(), 2);
    assert_eq!(headers.get("A"), Some(&"3".to_string()));
    assert_eq!(headers.get("C"), None);
    assert_eq!(http_sv::headers::read_headers(&headers), b"A: 3\r\nB: 2\r\n");
    let copy = headers.clone();
    assert_eq!(copy.to_bytes(), headers.to_bytes());
    assert_eq!(HttpHeaders::default().len(), 5);
}

#[test]
fn texts_are_compared_by_their_characters() {
    assert!(text_eq("Host", "Host"));
    assert!(!text_eq("Host", "host"));
    assert!(!text_eq("Host", "Hos"));
    assert!(text_eq("", ""));
}

#[test]
fn the_date_is_written_with_gmt() {
    assert_eq!(
        gmt_date("Tue, 1 Jul 2003 10:52:37 +0000"),
        "Tue, 1 Jul 2003 10:52:37 GMT"
    );
    assert_eq!(gmt_date("+0000+0000 +000"), "GMTGMT +000");
    let now = Time::now();
    assert!(now.ends_with(" GMT"));
    let moment = Time::new();
    assert!(moment.now.ends_with(" +0000"));
    assert!(!moment.now[..moment.now.len() - 5].contains('+'));
    assert!(moment.gmt().ends_with(" GMT"));
}

#[test]
fn bodies_of_texts() {
    assert_eq!("abc".into_body(), b"abc");
    assert_eq!("caf\u{e9}".to_string().into_body(), b"caf\xc3\xa9");
    let mut body: Body<Vec<u8>> = Body::new();
    assert_eq!(body.serialize(), b"");
    body.set_body(vec![1, 2, 3]);
    assert_eq!(body.serialize(), [1, 2, 3, 13, 10]);
    body.set_body(vec![]);
    assert_eq!(body.serialize(), b"\r\n");
}

#[test]
fn a_response_without_a_body_tells_length_zero() {
    let mut response: HttpResponse<String> = HttpResponse::new();
    let bytes = response.serialize();
    let text = String::from_utf8(bytes).unwrap();
    assert!(text.starts_with("HTTP/1.1 200 OK\r\nHost: 127.0.0.1:8080\r\nDate: "));
    assert!(text.ends_with("Content-Length: 0\r\nContent-Type: text/plain\r\nConnection: close\r\n\r\n"));
}

#[test]
fn a_response_with_a_body_tells_its_length_when_written() {
    let mut response: HttpResponse<String> = HttpResponse::new();
    response.body.set_body("x".repeat(98));
    response.body.set_body("hello".to_string());
    let text = String::from_utf8(response.serialize()).unwrap();
    assert!(text.ends_with(
        "Content-Length: 7\r\nContent-Type: text/plain\r\nConnection: close\r\n\r\nhello\r\n"
    ));
    response.body.set_body("x".repeat(98));
    let text = String::from_utf8(response.serialize()).unwrap();
    assert!(text.contains("\r\nContent-Length: 100\r\n"));
}

#[test]
fn request_error_texts() {
    assert_eq!(RequestError::ReadRequestErr.to_string(), "读取请求失败");
    assert_eq!(RequestError::EmptyRequest.to_string(), "请求为空");
    assert_eq!(
        RequestError::ParseError(ParseError::ParseSpaceErr).to_string(),
        "解析错误--> 解析空格失败"
    );
    assert_eq!(
        RequestError::from(ParseError::ParseMapErr),
        RequestError::ParseError(ParseError::ParseMapErr)
    );
}
