//! Helpers shared by the message types, and the first set of names for
//! versions, methods, statuses and headers.

pub mod parse;
pub mod text;

use crate::headers::{header_block, put};
use crate::utils::parse::NEWLINE;
use crate::utils::text::{
    append, clock_date, current_date, gmt_date, gmt_text, utc_now_rfc2822, utc_rfc2822,
};
use vstd::prelude::*;

verus! {

#[derive(Debug, Clone, Copy, PartialEq, Eq, Structural)]
#[non_exhaustive]
pub enum HttpVersion {
    V1_0,
    V1_1,
    V2,
}

impl HttpVersion {
    /// The version as text.
    pub open spec fn text(self) -> Seq<char> {
        match self {
            HttpVersion::V1_0 => "HTTP/1.0"@,
            HttpVersion::V1_1 => "HTTP/1.1"@,
            HttpVersion::V2 => "HTTP/2"@,
        }
    }

    pub fn to_string(&self) -> (s: String)
        ensures
            s@ == self.text(),
    {
        match self {
            HttpVersion::V1_0 => String::from_str("HTTP/1.0"),
            HttpVersion::V1_1 => String::from_str("HTTP/1.1"),
            HttpVersion::V2 => String::from_str("HTTP/2"),
        }
    }
}

#[derive(Debug, Clone, Copy, PartialEq, Eq, Structural)]
#[non_exhaustive]
pub enum HttpMethod {
    Get,
    Post,
}

impl HttpMethod {
    /// The method as text.
    pub open spec fn text(self) -> Seq<char> {
        match self {
            HttpMethod::Get => "GET"@,
            HttpMethod::Post => "POST"@,
        }
    }

    pub fn to_string(&self) -> (s: String)
        ensures
            s@ == self.text(),
    {
        match self {
            HttpMethod::Get => String::from_str("GET"),
            HttpMethod::Post => String::from_str("POST"),
        }
    }
}

#[derive(Debug, Clone, Copy, PartialEq, Eq, Structural)]
#[non_exhaustive]
pub enum StatusCode {
    OK,
    NotFound,
}

impl StatusCode {
    /// The number of the status, as text.
    pub open spec fn text(self) -> Seq<char> {
        match self {
            StatusCode::OK => "200"@,
            StatusCode::NotFound => "404"@,
        }
    }

    pub fn to_string(&self) -> (s: String)
        ensures
            s@ == self.text(),
    {
        match self {
            StatusCode::OK => String::from_str("200"),
            StatusCode::NotFound => String::from_str("404"),
        }
    }
}

#[derive(Debug, Clone, Copy, PartialEq, Eq, Structural)]
#[non_exhaustive]
pub enum StatusText {
    OK,
    NotFound,
}

impl StatusText {
    /// The reason of the status, as text.
    pub open spec fn text(self) -> Seq<char> {
        match self {
            StatusText::OK => "OK"@,
            StatusText::NotFound => "NotFound"@,
        }
    }

    pub fn to_string(&self) -> (s: String)
        ensures
            s@ == self.text(),
    {
        match self {
            StatusText::OK => String::from_str("OK"),
            StatusText::NotFound => String::from_str("NotFound"),
        }
    }
}

/// The names of the headers.
#[derive(Debug, Clone, Copy, PartialEq, Eq, Structural)]
#[non_exhaustive]
pub enum HeaderFiled {
    ContentType,
    ContentLength,
    Connection,
    Date,
    Host,
    Server,
    UserAgent,
}

impl HeaderFiled {
    /// The name as it stands in a header line.
    pub open spec fn text(self) -> Seq<char> {
        match self {
            HeaderFiled::ContentType => "Content-Type"@,
            HeaderFiled::ContentLength => "Content-Length"@,
            HeaderFiled::Connection => "Connection"@,
            HeaderFiled::Date => "Date"@,
            HeaderFiled::Host => "Host"@,
            HeaderFiled::Server => "Server"@,
            HeaderFiled::UserAgent => "User-Agent"@,
        }
    }

    pub fn to_string(&self) -> (s: String)
        ensures
            s@ == self.text(),
    {
        match self {
            HeaderFiled::ContentType => String::from_str("Content-Type"),
            HeaderFiled::ContentLength => String::from_str("Content-Length"),
            HeaderFiled::Connection => String::from_str("Connection"),
            HeaderFiled::Date => String::from_str("Date"),
            HeaderFiled::Host => String::from_str("Host"),
            HeaderFiled::Server => String::from_str("Server"),
            HeaderFiled::UserAgent => String::from_str("User-Agent"),
        }
    }
}

#[derive(Debug, Clone, Copy, PartialEq, Eq, Structural)]
#[non_exhaustive]
pub enum Mime {
    ApplicationJson,
    TextPlain,
}

impl Mime {
    /// The media type as text.
    pub open spec fn text(self) -> Seq<char> {
        match self {
            Mime::ApplicationJson => "Application/json"@,
            Mime::TextPlain => "Text/plain"@,
        }
    }

    pub fn to_string(&self) -> (s: String)
        ensures
            s@ == self.text(),
    {
        match self {
            Mime::ApplicationJson => String::from_str("Application/json"),
            Mime::TextPlain => String::from_str("Text/plain"),
        }
    }
}

/// Stores `v` under `k`; a value that was there is replaced.
pub fn map_insert(map: &mut crate::headers::HttpHeaders, k: String, v: String)
    ensures
        final(map)@ == put(old(map)@, k@, v@),
{
    map.insert(k, v);
}

/// The headers that stand in this map by default, `date` being the text of its
/// `Date` header.
pub open spec fn initial_headers(date: Seq<char>) -> Seq<(Seq<char>, Seq<char>)> {
    put(
        put(put(Seq::empty(), "Date"@, date), "Host"@, "127.0.0.1:8080"@),
        "Content-Length"@,
        "0"@,
    )
}

/// A header map that is filled by header name.
#[derive(Debug)]
pub struct HttpHeaders(pub crate::headers::HttpHeaders);

impl View for HttpHeaders {
    type V = Seq<(Seq<char>, Seq<char>)>;

    open spec fn view(&self) -> Seq<(Seq<char>, Seq<char>)> {
        self.0@
    }
}

impl HttpHeaders {
    /// The empty map.
    pub fn new() -> (headers: Self)
        ensures
            headers@ == Seq::<(Seq<char>, Seq<char>)>::empty(),
    {
        HttpHeaders(crate::headers::HttpHeaders::new())
    }

    /// Stores `value` under the name `header`; a value that was there is
    /// replaced.
    pub fn set(&mut self, header: HeaderFiled, value: String)
        ensures
            final(self)@ == put(old(self)@, header.text(), value@),
    {
        map_insert(&mut self.0, header.to_string(), value);
    }

    /// The headers on the wire, with the blank line that ends them.
    pub fn serialize(&mut self) -> (bytes: Vec<u8>)
        ensures
            bytes@ == header_block(old(self)@) + NEWLINE@,
            final(self)@ == old(self)@,
    {
        let mut bytes = self.0.to_bytes();
        append(&mut bytes, NEWLINE.as_slice());
        bytes
    }

    /// The default map with the `Date` header `date`.
    pub fn dated(date: String) -> (headers: Self)
        ensures
            headers@ == initial_headers(date@),
    {
        let mut headers = HttpHeaders::new();
        headers.set(HeaderFiled::Date, date);
        headers.set(HeaderFiled::Host, String::from_str("127.0.0.1:8080"));
        headers.set(HeaderFiled::ContentLength, String::from_str("0"));
        headers
    }
}

impl Default for HttpHeaders {
    /// The default map, dated by the clock.
    fn default() -> (headers: Self)
        ensures
            exists|date: Seq<char>| #[trigger] clock_date(date) && headers@ == initial_headers(date),
    {
        let date = Time::now();
        HttpHeaders::dated(date)
    }
}

/// A moment, held as the RFC 2822 text that the clock gave for it.
#[derive(Debug)]
pub struct Time {
    pub now: String,
}

impl Time {
    /// The current moment, held as RFC 2822 text in UTC. Which moment it is
    /// depends on the clock: two calls may differ.
    pub fn new() -> (time: Self)
        ensures
            utc_rfc2822(time.now@),
    {
        Time { now: utc_now_rfc2822() }
    }

    /// The current time as the text of a `Date` header, its offset written
    /// as `GMT`.
    pub fn now() -> (date: String)
        ensures
            clock_date(date@),
    {
        current_date()
    }

    /// The moment as the text of a `Date` header.
    pub fn gmt(&self) -> (date: String)
        ensures
            date@ == gmt_text(self.now@),
    {
        gmt_date(self.now.as_str())
    }
}

} // verus!
