//! A response whose body may not have been set. Its `Content-Length` is
//! computed when the response is written out.

use crate::body::body_util::{AsBytes, Body};
use crate::headers::{header_block, put};
use crate::utils::parse::{NEWLINE, SPACE};
use crate::utils::text::{append, clock_date, decimal, gmt_text, usize_to_string};
use crate::utils::{map_insert, HttpHeaders, HttpVersion, StatusCode, StatusText, Time};
use vstd::prelude::*;
use vstd::string::StringExecFns;
use vstd::utf8::encode_utf8;

verus! {

#[derive(Debug)]
pub struct HttpResponse<B> {
    pub status_line: StatusLine,
    pub headers: HttpResponseHeader,
    pub body: Body<B>,
}

impl<B> HttpResponse<B> where B: AsBytes {
    /// The headers with `Content-Length` telling the length of the body on
    /// the wire.
    pub open spec fn measured_headers(&self) -> Seq<(Seq<char>, Seq<char>)> {
        put(self.headers@, "Content-Length"@, decimal(self.body.wire().len()))
    }

    /// The response on the wire: status line, the headers with
    /// `Content-Length` computed from the body, a blank line, the body.
    pub open spec fn wire(&self) -> Seq<u8> {
        self.status_line.wire() + (header_block(self.measured_headers()) + NEWLINE@)
            + self.body.wire()
    }

    /// Status `200 OK` over HTTP/1.1 with the default headers and no body.
    /// The `Date` header comes from the clock.
    pub fn new() -> (response: Self)
        ensures
            response.status_line.is_initial(),
            exists|date: Seq<char>|
                #[trigger] clock_date(date) && response.headers@ == initial_response_headers(date),
            response.body.payload() is None,
    {
        HttpResponse {
            status_line: StatusLine::new(),
            headers: HttpResponseHeader::new(),
            body: Body::new(),
        }
    }

    /// The response on the wire. `Content-Length` is set here to the length
    /// of the body, whatever the headers said of it before.
    pub fn serialize(&mut self) -> (bytes: Vec<u8>)
        ensures
            bytes@ == old(self).wire(),
            final(self).headers@ == old(self).measured_headers(),
            final(self).status_line == old(self).status_line,
            final(self).body == old(self).body,
    {
        self.update_content_length();
        let mut bytes = self.status_line.to_bytes();
        let headers = self.headers.headers.serialize();
        let body = self.body.serialize();
        append(&mut bytes, headers.as_slice());
        append(&mut bytes, body.as_slice());
        bytes
    }

    /// Sets `Content-Length` to the length of the body on the wire.
    pub fn update_content_length(&mut self)
        ensures
            final(self).headers@ == old(self).measured_headers(),
            final(self).status_line == old(self).status_line,
            final(self).body == old(self).body,
    {
        let length = usize_to_string(self.body.len());
        map_insert(&mut self.headers.headers.0, String::from_str("Content-Length"), length);
    }
}

#[derive(Debug)]
pub struct StatusLine {
    pub version: String,
    pub status_code: u32,
    pub status_text: String,
}

impl StatusLine {
    /// Whether this is the status line of a fresh response: `HTTP/1.1 200 OK`.
    pub open spec fn is_initial(&self) -> bool {
        self.version@ == "HTTP/1.1"@ && self.status_code == 200 && self.status_text@ == "OK"@
    }

    /// The status line as text, its line break included.
    pub open spec fn text(&self) -> Seq<char> {
        self.version@ + " "@ + decimal(self.status_code as nat) + " "@ + self.status_text@
            + "\r\n"@
    }

    /// The status line on the wire.
    pub open spec fn wire(&self) -> Seq<u8> {
        encode_utf8(self.version@) + SPACE@ + encode_utf8(decimal(self.status_code as nat))
            + SPACE@ + encode_utf8(self.status_text@) + NEWLINE@
    }

    pub fn new() -> (line: Self)
        ensures
            line.is_initial(),
    {
        StatusLine {
            version: String::from_str("HTTP/1.1"),
            status_code: 200,
            status_text: String::from_str("OK"),
        }
    }

    /// Sets the version to its text on the wire.
    pub fn set_version(&mut self, version: HttpVersion)
        ensures
            final(self).version@ == version.text(),
            final(self).status_code == old(self).status_code,
            final(self).status_text == old(self).status_text,
    {
        self.version = version.to_string();
    }

    /// Sets the number of the status: 200 for `OK`, 404 for `NotFound`.
    pub fn set_status_code(&mut self, code: StatusCode)
        ensures
            final(self).status_code == (match code {
                StatusCode::OK => 200u32,
                StatusCode::NotFound => 404u32,
            }),
            final(self).version == old(self).version,
            final(self).status_text == old(self).status_text,
    {
        match code {
            StatusCode::OK => self.status_code = 200,
            StatusCode::NotFound => self.status_code = 404,
        }
    }

    /// Sets the reason of the status: `OK`, or `Not Found`.
    pub fn set_status_text(&mut self, text: StatusText)
        ensures
            final(self).status_text@ == (match text {
                StatusText::OK => "OK"@,
                StatusText::NotFound => "Not Found"@,
            }),
            final(self).version == old(self).version,
            final(self).status_code == old(self).status_code,
    {
        match text {
            StatusText::OK => self.status_text = String::from_str("OK"),
            StatusText::NotFound => self.status_text = String::from_str("Not Found"),
        }
    }

    pub fn to_string(&self) -> (s: String)
        ensures
            s@ == self.text(),
    {
        let code = usize_to_string(self.status_code as usize);
        String::from_str(self.version.as_str()).concat(" ").concat(code.as_str()).concat(
            " ",
        ).concat(self.status_text.as_str()).concat("\r\n")
    }

    /// The status line on the wire.
    pub fn to_bytes(&self) -> (bytes: Vec<u8>)
        ensures
            bytes@ == self.wire(),
    {
        let code = usize_to_string(self.status_code as usize);
        let mut bytes: Vec<u8> = Vec::new();
        append(&mut bytes, self.version.as_str().as_bytes());
        append(&mut bytes, SPACE.as_slice());
        append(&mut bytes, code.as_str().as_bytes());
        append(&mut bytes, SPACE.as_slice());
        append(&mut bytes, self.status_text.as_str().as_bytes());
        append(&mut bytes, NEWLINE.as_slice());
        bytes
    }
}

/// The headers that a fresh response of this kind carries, `date` being the
/// text of its `Date` header. Beside the five headers that every message
/// carries by default, a response of this kind names the server: `Server` and
/// `User-Agent` are set on purpose.
pub open spec fn initial_response_headers(date: Seq<char>) -> Seq<(Seq<char>, Seq<char>)> {
    seq![
        ("Host"@, "127.0.0.1:8080"@),
        ("Date"@, date),
        ("Server"@, "BingServer/Linux"@),
        ("User-Agent"@, "BingServer/1.0"@),
        ("Content-Length"@, "0"@),
        ("Content-Type"@, "text/plain"@),
        ("Connection"@, "close"@),
    ]
}

/// The headers as text, one line each, in the order of the list.
pub open spec fn header_text(headers: Seq<(Seq<char>, Seq<char>)>) -> Seq<char>
    decreases headers.len(),
{
    if headers.len() == 0 {
        Seq::empty()
    } else {
        header_text(headers.drop_last()) + headers.last().0 + ": "@ + headers.last().1 + "\r\n"@
    }
}

#[derive(Debug)]
pub struct HttpResponseHeader {
    pub headers: HttpHeaders,
}

impl View for HttpResponseHeader {
    type V = Seq<(Seq<char>, Seq<char>)>;

    open spec fn view(&self) -> Seq<(Seq<char>, Seq<char>)> {
        self.headers@
    }
}

#[derive(Debug)]
pub enum Connection {
    KeepAlive,
    Close,
}

impl HttpResponseHeader {
    /// The headers of a fresh response, dated by the clock.
    pub fn new() -> (headers: Self)
        ensures
            exists|date: Seq<char>|
                #[trigger] clock_date(date) && headers@ == initial_response_headers(date),
    {
        let now = Time::new();
        let headers = HttpResponseHeader::dated(now.gmt());
        assert(clock_date(gmt_text(now.now@)) && headers@ == initial_response_headers(
            gmt_text(now.now@),
        ));
        headers
    }

    /// The headers of a fresh response whose `Date` header is `date`.
    pub fn dated(date: String) -> (headers: Self)
        ensures
            headers@ == initial_response_headers(date@),
    {
        proof {
            reveal_strlit("Host");
            reveal_strlit("Date");
            reveal_strlit("Server");
            reveal_strlit("User-Agent");
            reveal_strlit("Content-Length");
            reveal_strlit("Content-Type");
            reveal_strlit("Connection");
            assert("Host"@.len() == 4 && "Date"@.len() == 4 && "Server"@.len() == 6);
            assert("User-Agent"@.len() == 10 && "Connection"@.len() == 10);
            assert("Content-Length"@.len() == 14 && "Content-Type"@.len() == 12);
            assert("Host"@[0] != "Date"@[0]);
            assert("User-Agent"@[0] != "Connection"@[0]);
        }
        let ghost host = ("Host"@, "127.0.0.1:8080"@);
        let ghost dated = ("Date"@, date@);
        let ghost server = ("Server"@, "BingServer/Linux"@);
        let ghost agent = ("User-Agent"@, "BingServer/1.0"@);
        let ghost length = ("Content-Length"@, "0"@);
        let ghost kind = ("Content-Type"@, "text/plain"@);
        let ghost connection = ("Connection"@, "close"@);
        let mut headers = crate::headers::HttpHeaders::new();
        map_insert(&mut headers, String::from_str("Host"), String::from_str("127.0.0.1:8080"));
        assert(headers@ =~= seq![host]);
        map_insert(&mut headers, String::from_str("Date"), date);
        assert(headers@ =~= seq![host, dated]);
        map_insert(&mut headers, String::from_str("Server"), String::from_str("BingServer/Linux"));
        assert(headers@ =~= seq![host, dated, server]);
        map_insert(&mut headers, String::from_str("User-Agent"), String::from_str("BingServer/1.0"));
        assert(headers@ =~= seq![host, dated, server, agent]);
        map_insert(&mut headers, String::from_str("Content-Length"), String::from_str("0"));
        assert(headers@ =~= seq![host, dated, server, agent, length]);
        map_insert(&mut headers, String::from_str("Content-Type"), String::from_str("text/plain"));
        assert(headers@ =~= seq![host, dated, server, agent, length, kind]);
        map_insert(&mut headers, String::from_str("Connection"), String::from_str("close"));
        assert(headers@ =~= seq![host, dated, server, agent, length, kind, connection]);
        proof {
            crate::headers::lemma_key_index(headers@, 0);
        }
        map_insert(&mut headers, String::from_str("Host"), String::from_str("127.0.0.1:8080"));
        assert(headers@ =~= initial_response_headers(date@));
        HttpResponseHeader { headers: HttpHeaders(headers) }
    }

    /// The headers as text, with the blank line that ends them.
    pub fn to_string(&self) -> (s: String)
        ensures
            s@ == header_text(self@) + "\r\n"@,
    {
        let mut s = String::from_str("");
        proof {
            reveal_strlit("");
        }
        let n = self.headers.0.len();
        let mut i: usize = 0;
        assert(self@.subrange(0, 0) =~= Seq::empty());
        while i < n
            invariant
                i <= n,
                n == self@.len(),
                s@ == header_text(self@.subrange(0, i as int)),
            decreases n - i,
        {
            let ghost before = self@.subrange(0, i as int);
            let ghost next = self@.subrange(0, i + 1);
            assert(next.drop_last() =~= before);
            let (key, value) = self.headers.0.entry(i);
            s = s.concat(key).concat(": ").concat(value).concat("\r\n");
            i += 1;
        }
        assert(self@.subrange(0, i as int) =~= self@);
        s.concat("\r\n")
    }
}

} // verus!
