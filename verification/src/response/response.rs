//! The response as it lives in memory, and its bytes on the wire.

use crate::headers::{
    default_headers, distinct_keys, header_block, lemma_put, put, value_of, Headers, HttpHeaders,
    HttpVersion, IntoHttpVersion, IntoStatusCode, StatusCode,
};
use crate::request::with_content_length;
use crate::utils::parse::{NEWLINE, SPACE};
use crate::utils::text::{append, clock_date, current_date, decimal, usize_to_string};
use vstd::prelude::*;
use vstd::utf8::encode_utf8;

verus! {

/// What a response is, apart from how it is stored.
pub struct ResponseView {
    pub version: HttpVersion,
    pub status: StatusCode,
    pub headers: Seq<(Seq<char>, Seq<char>)>,
    pub body: Seq<u8>,
}

/// The response on the wire: status line, the headers with `Content-Length`
/// computed from the body, a blank line, the body as it is.
pub open spec fn response_bytes(response: ResponseView) -> Seq<u8> {
    response.version.wire() + SPACE@ + response.status.wire() + NEWLINE@ + header_block(
        with_content_length(response.headers, response.body),
    ) + NEWLINE@ + response.body
}

/// A response over HTTP/1.1 with the default headers dated `date`, the given
/// status and no body.
pub open spec fn fresh_response(status: StatusCode, date: Seq<char>) -> ResponseView {
    ResponseView {
        version: HttpVersion::V1_1,
        status,
        headers: default_headers(date),
        body: Seq::empty(),
    }
}

/// `response` after its body was set to `body`: the body is followed by a line
/// break, and `Content-Length` is the length of both.
pub open spec fn with_body(response: ResponseView, body: Seq<u8>) -> ResponseView {
    ResponseView {
        headers: with_content_length(response.headers, body + NEWLINE@),
        body: body + NEWLINE@,
        ..response
    }
}

/// The header follows the body: after the body was set, `Content-Length`
/// tells the length of that body and of the line break behind it, whatever
/// the header held before and however often a body was set already.
pub proof fn lemma_content_length_follows_body(response: ResponseView, body: Seq<u8>)
    requires
        distinct_keys(response.headers),
    ensures
        with_body(response, body).body.len() == body.len() + 2,
        value_of(with_body(response, body).headers, "Content-Length"@) == Some(
            decimal((body.len() + 2) as nat),
        ),
        distinct_keys(with_body(response, body).headers),
{
    assert(NEWLINE@.len() == 2);
    lemma_put(response.headers, "Content-Length"@, decimal((body + NEWLINE@).len()));
}

/// On the wire the header tells the length of the body that is written,
/// whatever the header held before.
pub proof fn lemma_written_content_length(headers: Seq<(Seq<char>, Seq<char>)>, body: Seq<u8>)
    requires
        distinct_keys(headers),
    ensures
        value_of(with_content_length(headers, body), "Content-Length"@) == Some(
            decimal(body.len()),
        ),
{
    lemma_put(headers, "Content-Length"@, decimal(body.len()));
}

/// The response that a text alone stands for: status `OK`, the text as body.
pub open spec fn text_page(text: Seq<char>, date: Seq<char>) -> ResponseView {
    with_body(fresh_response(StatusCode::OK, date), encode_utf8(text))
}

/// Anything that a response can be made of.
pub trait IntoResponse {
    /// Whether `response` is one that the value may turn into. What the clock
    /// says is the only thing left open.
    spec fn yields(&self, response: Response) -> bool;

    fn into_response(&self) -> (response: Response)
        ensures
            self.yields(response),
    ;
}

impl IntoResponse for Response {
    open spec fn yields(&self, response: Response) -> bool {
        response@ == self@
    }

    fn into_response(&self) -> (response: Response) {
        self.clone()
    }
}

impl IntoResponse for String {
    open spec fn yields(&self, response: Response) -> bool {
        exists|date: Seq<char>| #[trigger] clock_date(date) && response@ == text_page(self@, date)
    }

    fn into_response(&self) -> (response: Response) {
        Response::text(self.as_str())
    }
}

impl IntoResponse for &String {
    open spec fn yields(&self, response: Response) -> bool {
        exists|date: Seq<char>| #[trigger] clock_date(date) && response@ == text_page(self@, date)
    }

    fn into_response(&self) -> (response: Response) {
        Response::text(self.as_str())
    }
}

impl IntoResponse for &str {
    open spec fn yields(&self, response: Response) -> bool {
        exists|date: Seq<char>| #[trigger] clock_date(date) && response@ == text_page(self@, date)
    }

    fn into_response(&self) -> (response: Response) {
        Response::text(self)
    }
}

#[derive(Debug)]
pub struct Response {
    status_line: StatusLine,
    headers: HttpHeaders,
    body: Vec<u8>,
}

impl View for Response {
    type V = ResponseView;

    closed spec fn view(&self) -> ResponseView {
        ResponseView {
            version: self.status_line.version,
            status: self.status_line.status,
            headers: self.headers@,
            body: self.body@,
        }
    }
}

impl Response {
    /// Status `OK` over HTTP/1.1 with the default headers and no body. The
    /// `Date` header comes from the clock.
    pub fn new() -> (response: Self)
        ensures
            exists|date: Seq<char>|
                #[trigger] clock_date(date) && response@ == fresh_response(StatusCode::OK, date),
    {
        let date = current_date();
        let response = Response::dated(StatusCode::OK, date);
        assert(clock_date(date@) && response@ == fresh_response(StatusCode::OK, date@));
        response
    }

    /// Status `NotFound` over HTTP/1.1 with the default headers and no body.
    /// The `Date` header comes from the clock.
    pub fn not_found() -> (response: Self)
        ensures
            exists|date: Seq<char>|
                #[trigger] clock_date(date) && response@ == fresh_response(
                    StatusCode::NotFound,
                    date,
                ),
    {
        let date = current_date();
        let response = Response::dated(StatusCode::NotFound, date);
        assert(clock_date(date@) && response@ == fresh_response(StatusCode::NotFound, date@));
        response
    }

    /// A response over HTTP/1.1 with the default headers dated `date`, the
    /// given status and no body.
    pub fn dated(status: StatusCode, date: String) -> (response: Self)
        ensures
            response@ == fresh_response(status, date@),
    {
        Response {
            status_line: StatusLine { version: HttpVersion::V1_1, status },
            headers: HttpHeaders::dated(date),
            body: Vec::new(),
        }
    }

    /// The response that a text alone stands for, dated by the clock.
    pub fn text(text: &str) -> (response: Self)
        ensures
            exists|date: Seq<char>| #[trigger] clock_date(date) && response@ == text_page(text@, date),
    {
        let date = current_date();
        let response = Response::dated(StatusCode::OK, date).body(
            vstd::slice::slice_to_vec(text.as_bytes()),
        );
        assert(clock_date(date@) && response@ == text_page(text@, date@));
        response
    }

    /// Sets the version.
    pub fn version(self, version: impl IntoHttpVersion) -> (response: Self)
        ensures
            response@ == (ResponseView { version: version.version(), ..self@ }),
    {
        let mut response = self;
        response.status_line.version = version.into_http_version();
        response
    }

    /// Sets the status.
    pub fn status(self, status: impl IntoStatusCode) -> (response: Self)
        ensures
            response@ == (ResponseView { status: status.status(), ..self@ }),
    {
        let mut response = self;
        response.status_line.status = status.into_status_code();
        response
    }

    /// Sets the body to `body` followed by a line break, and `Content-Length`
    /// to the length of that. However often the body is set, the header tells
    /// the length of the last one.
    pub fn body(self, body: Vec<u8>) -> (response: Self)
        ensures
            response@ == with_body(self@, body@),
    {
        let mut response = self;
        response.body = body;
        append(&mut response.body, NEWLINE.as_slice());
        let length = usize_to_string(response.body.len());
        response.headers.insert(Headers::ContentLength.to_string(), length);
        response
    }

    /// Stores `value` under the header `key`; a value that was there is
    /// replaced.
    pub fn header(self, key: Headers, value: &str) -> (response: Self)
        ensures
            response@ == (ResponseView { headers: put(self@.headers, key.text(), value@), ..self@ }),
    {
        let mut response = self;
        response.headers.notify(key.to_string().as_str(), value);
        response
    }

    pub fn version_ref(&self) -> (version: &HttpVersion)
        ensures
            *version == self@.version,
    {
        &self.status_line.version
    }

    pub fn status_ref(&self) -> (status: &StatusCode)
        ensures
            *status == self@.status,
    {
        &self.status_line.status
    }

    pub fn headers_ref(&self) -> (headers: &HttpHeaders)
        ensures
            headers@ == self@.headers,
            distinct_keys(self@.headers),
    {
        let _count: usize = self.headers.len();
        &self.headers
    }

    pub fn body_ref(&self) -> (body: &Vec<u8>)
        ensures
            body@ == self@.body,
    {
        &self.body
    }

    /// The response on the wire. `Content-Length` is computed here from the
    /// body; what the headers said of it before is not looked at.
    pub fn to_bytes(self) -> (bytes: Vec<u8>)
        ensures
            bytes@ == response_bytes(self@),
    {
        let mut headers = self.headers;
        headers.insert(Headers::ContentLength.to_string(), usize_to_string(self.body.len()));
        let version = self.status_line.version.to_bytes();
        let status = self.status_line.status.to_bytes();
        let lines = headers.to_bytes();
        let mut bytes: Vec<u8> = Vec::new();
        append(&mut bytes, version.as_slice());
        append(&mut bytes, SPACE.as_slice());
        append(&mut bytes, status.as_slice());
        append(&mut bytes, NEWLINE.as_slice());
        append(&mut bytes, lines.as_slice());
        append(&mut bytes, NEWLINE.as_slice());
        append(&mut bytes, self.body.as_slice());
        assert(bytes@ =~= response_bytes(self@));
        bytes
    }
}

impl Clone for Response {
    fn clone(&self) -> (copy: Self)
        ensures
            copy@ == self@,
    {
        Response {
            status_line: StatusLine {
                version: self.status_line.version,
                status: self.status_line.status,
            },
            headers: self.headers.duplicate(),
            body: vstd::slice::slice_to_vec(self.body.as_slice()),
        }
    }
}

impl From<Response> for Vec<u8> {
    fn from(response: Response) -> (bytes: Vec<u8>)
        ensures
            bytes@ == response_bytes(response@),
    {
        response.to_bytes()
    }
}

impl vstd::std_specs::convert::FromSpecImpl<Response> for Vec<u8> {
    open spec fn obeys_from_spec() -> bool {
        false
    }

    open spec fn from_spec(response: Response) -> Vec<u8> {
        arbitrary()
    }
}

/// The first line of a response: version and status.
#[derive(Debug, Clone, Copy)]
pub struct StatusLine {
    version: HttpVersion,
    status: StatusCode,
}

} // verus!
