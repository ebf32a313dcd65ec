use http_sv::headers::{HttpMethod, StatusCode};
use http_sv::request::Request;
use http_sv::response::Response;
use http_sv::router::Router;
use http_sv::server::Either::{Left, Right};

#[test]
fn a_registered_text_answers_its_route() {
    let mut router = Router::new().route("/", HttpMethod::GET, "Hello, World!".to_string());
    let response = router.handle(Request::new());
    assert_eq!(*response.status_ref(), StatusCode::OK);
    assert_eq!(response.body_ref().as_slice(), b"Hello, World!\r\n");
    assert_eq!(
        response.headers_ref().get("Content-Length"),
        Some(&"15".to_string())
    );
}

#[test]
fn a_request_without_a_route_gets_the_not_found_page() {
    let mut router = Router::new().route("/", HttpMethod::GET, "Hello, World!".to_string());
    let response = router.handle(Request::new().path("/missing"));
    assert_eq!(*response.status_ref(), StatusCode::NotFound);
    assert_eq!(response.body_ref().as_slice(), b"404 Not Found\r\n");
    let response = router.handle(Request::new().method("POST"));
    assert_eq!(*response.status_ref(), StatusCode::NotFound);
}

#[test]
fn paths_are_matched_as_they_are() {
    let mut router = Router::new().route("/hello", "GET", "hi");
    assert_eq!(
        *router.handle(Request::new().path("/hello")).status_ref(),
        StatusCode::OK
    );
    for path in ["/hello/", "/Hello", "/hello?x=1", "hello", "/"] {
        assert_eq!(
            *router.handle(Request::new().path(path)).status_ref(),
            StatusCode::NotFound
        );
    }
}

#[test]
fn the_last_registration_for_a_route_wins() {
    let mut router = Router::new()
        .route("/", "GET", "first")
        .route("/other", "GET", "other")
        .route("/", "GET", "second");
    assert_eq!(
        router.handle(Request::new()).body_ref().as_slice(),
        b"second\r\n"
    );
    assert_eq!(
        router.handle(Request::new().path("/other")).body_ref().as_slice(),
        b"other\r\n"
    );
}

#[test]
fn a_function_to_a_text_is_a_handler() {
    let mut router = Router::new().route("/", "POST", |_req: Request| "Hello, Rust");
    let response = router.handle(Request::new().method(HttpMethod::POST));
    assert_eq!(response.body_ref().as_slice(), b"Hello, Rust\r\n");
}

fn hello(req: Request) -> Response {
    Response::dated(StatusCode::OK, "now".to_string()).body(req.path_ref().as_bytes().to_vec())
}

#[test]
fn a_function_to_a_response_is_a_handler_and_its_response_comes_back_unchanged() {
    let mut router = Router::new().route("/post", "POST", hello);
    let response = router.handle(Request::new().method("POST").path("/post"));
    let expected = hello(Request::new().path("/post"));
    assert_eq!(response.to_bytes(), expected.to_bytes());
}

#[test]
fn one_connection_is_answered_in_bytes() {
    let mut router = Router::new().route("/post", "POST", hello);
    let bytes = router
        .respond(b"POST /post HTTP/1.1\r\nHost: example.com\r\n\r\n", "10.0.0.1:80")
        .unwrap();
    assert_eq!(
        bytes,
        b"HTTP/1.1 200 OK\r\nDate: now\r\nHost: 10.0.0.1:80\r\nContent-Length: 7\r\n\
          Content-Type: text/plain\r\nConnection: close\r\n\r\n/post\r\n"
    );
    assert!(router.respond(b"POST /post HTTP/1.1\r\n", "10.0.0.1:80").is_err());
}

#[test]
fn one_table_holds_handlers_of_several_shapes() {
    let mut router = Router::new()
        .route("/", HttpMethod::GET, Left("Hello, World!".to_string()))
        .route("/post", "POST", Right(Left(hello as fn(Request) -> Response)))
        .route("/", "POST", Right(Right(|_: Request| "Hello, Rust")));
    assert_eq!(
        router.handle(Request::new()).body_ref().as_slice(),
        b"Hello, World!\r\n"
    );
    assert_eq!(
        router
            .handle(Request::new().method("POST").path("/post"))
            .body_ref()
            .as_slice(),
        b"/post\r\n"
    );
    assert_eq!(
        router.handle(Request::new().method("POST")).body_ref().as_slice(),
        b"Hello, Rust\r\n"
    );
}
