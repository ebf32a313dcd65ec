//! A request whose body may not have been set.

use crate::body::body_util::Body;
use crate::utils::{HttpHeaders, HttpMethod, HttpVersion};
use vstd::prelude::*;
use vstd::string::StringExecFns;

verus! {

#[derive(Debug)]
pub struct HttpRequest<B> {
    pub start_line: StartLine,
    pub headers: HttpHeaders,
    pub body: Body<B>,
}

impl<T> HttpRequest<T> {
    /// The request made of the three parts, each as it is.
    pub fn new(start_line: StartLine, headers: HttpHeaders, body: Body<T>) -> (request: Self)
        ensures
            request.start_line == start_line,
            request.headers == headers,
            request.body == body,
    {
        HttpRequest { start_line, headers, body }
    }
}

#[derive(Debug)]
pub struct StartLine {
    pub method: HttpMethod,
    pub path: String,
    pub version: HttpVersion,
}

impl StartLine {
    /// The start-line as text: method, path and version, parted by single
    /// spaces.
    pub open spec fn text(&self) -> Seq<char> {
        self.method.text() + " "@ + self.path@ + " "@ + self.version.text()
    }

    pub fn to_string(&self) -> (s: String)
        ensures
            s@ == self.text(),
    {
        let version = self.version.to_string();
        self.method.to_string().concat(" ").concat(self.path.as_str()).concat(" ").concat(
            version.as_str(),
        )
    }
}

} // verus!
