//! The request as it lives in memory, and its bytes on the wire.

use crate::headers::{
    default_headers, header_block, put, Headers, HttpHeaders, HttpMethod, HttpVersion,
    IntoHttpMethod, IntoHttpVersion,
};
use crate::utils::parse::{NEWLINE, SPACE};
use crate::utils::text::{append, clock_date, current_date, decimal, usize_to_string};
use vstd::prelude::*;
use vstd::string::StringExecFns;
use vstd::utf8::encode_utf8;

verus! {

/// Anything that a request can be made of.
pub trait IntoRequest {
    /// Whether `request` is one that the value may turn into.
    spec fn yields(&self, request: Request) -> bool;

    fn into_request(&self) -> (request: Request)
        ensures
            self.yields(request),
    ;
}

/// What a request is, apart from how it is stored.
pub struct RequestView {
    pub method: HttpMethod,
    pub path: Seq<char>,
    pub version: HttpVersion,
    pub headers: Seq<(Seq<char>, Seq<char>)>,
    pub body: Seq<u8>,
}

/// The headers with `Content-Length` set to the length of `body`.
pub open spec fn with_content_length(headers: Seq<(Seq<char>, Seq<char>)>, body: Seq<u8>) -> Seq<
    (Seq<char>, Seq<char>),
> {
    put(headers, "Content-Length"@, decimal(body.len()))
}

/// The start-line without its line break: method, path and version, parted by
/// single spaces.
pub open spec fn start_line_bytes(method: HttpMethod, path: Seq<char>, version: HttpVersion) -> Seq<
    u8,
> {
    method.wire() + SPACE@ + encode_utf8(path) + SPACE@ + version.wire()
}

/// The request on the wire: start-line, the headers with `Content-Length`
/// computed from the body, a blank line, the body as it is.
pub open spec fn request_bytes(request: RequestView) -> Seq<u8> {
    start_line_bytes(request.method, request.path, request.version) + NEWLINE@ + header_block(
        with_content_length(request.headers, request.body),
    ) + NEWLINE@ + request.body
}

/// The request that `Request::new` makes when the clock gives `date`.
pub open spec fn fresh_request(date: Seq<char>) -> RequestView {
    RequestView {
        method: HttpMethod::GET,
        path: "/"@,
        version: HttpVersion::V1_1,
        headers: default_headers(date),
        body: Seq::empty(),
    }
}

#[derive(Debug)]
pub struct StartLine {
    pub method: HttpMethod,
    pub path: String,
    pub version: HttpVersion,
}

impl StartLine {
    /// The start-line as text: method, path and version, parted by single
    /// spaces.
    pub open spec fn text(&self) -> Seq<char> {
        self.method.text() + " "@ + self.path@ + " "@ + self.version.text()
    }

    pub fn to_string(&self) -> (s: String)
        ensures
            s@ == self.text(),
    {
        let version = self.version.to_string();
        self.method.to_string().concat(" ").concat(self.path.as_str()).concat(" ").concat(
            version.as_str(),
        )
    }
}

#[derive(Debug)]
pub struct Request {
    pub start_line: StartLine,
    pub headers: HttpHeaders,
    pub body: Vec<u8>,
}

impl View for Request {
    type V = RequestView;

    open spec fn view(&self) -> RequestView {
        RequestView {
            method: self.start_line.method,
            path: self.start_line.path@,
            version: self.start_line.version,
            headers: self.headers@,
            body: self.body@,
        }
    }
}

impl Request {
    /// A `GET` of `/` over HTTP/1.1 with the default headers and no body. The
    /// `Date` header comes from the clock.
    pub fn new() -> (request: Self)
        ensures
            exists|date: Seq<char>| #[trigger] clock_date(date) && request@ == fresh_request(date),
    {
        let date = current_date();
        let request = Request::dated(date);
        assert(clock_date(date@) && request@ == fresh_request(date@));
        request
    }

    /// A `GET` of `/` over HTTP/1.1 with the default headers, dated `date`,
    /// and no body.
    pub fn dated(date: String) -> (request: Self)
        ensures
            request@ == fresh_request(date@),
    {
        Request {
            start_line: StartLine {
                method: HttpMethod::GET,
                path: String::from_str("/"),
                version: HttpVersion::V1_1,
            },
            headers: HttpHeaders::dated(date),
            body: Vec::new(),
        }
    }

    /// Sets the method.
    pub fn method(self, method: impl IntoHttpMethod) -> (request: Self)
        ensures
            request@ == (RequestView { method: method.method(), ..self@ }),
    {
        let mut request = self;
        request.start_line.method = method.into_http_method();
        request
    }

    pub fn method_ref(&self) -> (method: &HttpMethod)
        ensures
            *method == self@.method,
    {
        &self.start_line.method
    }

    /// Sets the path.
    pub fn path(self, path: &str) -> (request: Self)
        ensures
            request@ == (RequestView { path: path@, ..self@ }),
    {
        let mut request = self;
        request.start_line.path = String::from_str(path);
        request
    }

    pub fn path_ref(&self) -> (path: &str)
        ensures
            path@ == self@.path,
    {
        self.start_line.path.as_str()
    }

    /// Sets the version.
    pub fn version(self, version: impl IntoHttpVersion) -> (request: Self)
        ensures
            request@ == (RequestView { version: version.version(), ..self@ }),
    {
        let mut request = self;
        request.start_line.version = version.into_http_version();
        request
    }

    pub fn version_ref(&self) -> (version: &HttpVersion)
        ensures
            *version == self@.version,
    {
        &self.start_line.version
    }

    /// Sets the body to `body` followed by a line break, and `Content-Length`
    /// to the length of that.
    pub fn body(self, body: Vec<u8>) -> (request: Self)
        ensures
            request@ == (RequestView {
                headers: with_content_length(self@.headers, body@ + NEWLINE@),
                body: body@ + NEWLINE@,
                ..self@
            }),
    {
        let mut request = self;
        request.body = body;
        append(&mut request.body, NEWLINE.as_slice());
        let length = usize_to_string(request.body.len());
        request.headers.insert(Headers::ContentLength.to_string(), length);
        request
    }

    pub fn body_ref(&self) -> (body: &Vec<u8>)
        ensures
            body@ == self@.body,
    {
        &self.body
    }

    /// Stores `value` under the header `headers`; a value that was there is
    /// replaced.
    pub fn headers(self, headers: Headers, value: &str) -> (request: Self)
        ensures
            request@ == (RequestView { headers: put(self@.headers, headers.text(), value@), ..self@ }),
    {
        let mut request = self;
        request.headers.insert(headers.to_string(), String::from_str(value));
        request
    }

    /// The request on the wire. `Content-Length` is computed here from the
    /// body; what the headers said of it before is not looked at.
    pub fn to_bytes(self) -> (bytes: Vec<u8>)
        ensures
            bytes@ == request_bytes(self@),
    {
        let mut headers = self.headers;
        headers.insert(Headers::ContentLength.to_string(), usize_to_string(self.body.len()));
        let method = self.start_line.method.to_bytes();
        let version = self.start_line.version.to_bytes();
        let lines = headers.to_bytes();
        let mut bytes: Vec<u8> = Vec::new();
        append(&mut bytes, method.as_slice());
        append(&mut bytes, SPACE.as_slice());
        append(&mut bytes, self.start_line.path.as_str().as_bytes());
        append(&mut bytes, SPACE.as_slice());
        append(&mut bytes, version.as_slice());
        append(&mut bytes, NEWLINE.as_slice());
        append(&mut bytes, lines.as_slice());
        append(&mut bytes, NEWLINE.as_slice());
        append(&mut bytes, self.body.as_slice());
        assert(bytes@ =~= request_bytes(self@));
        bytes
    }
}

impl From<Request> for Vec<u8> {
    fn from(request: Request) -> (bytes: Vec<u8>)
        ensures
            bytes@ == request_bytes(request@),
    {
        request.to_bytes()
    }
}

impl vstd::std_specs::convert::FromSpecImpl<Request> for Vec<u8> {
    open spec fn obeys_from_spec() -> bool {
        false
    }

    open spec fn from_spec(request: Request) -> Vec<u8> {
        arbitrary()
    }
}

} // verus!
