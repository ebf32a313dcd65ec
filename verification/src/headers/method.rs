//! The request method.

use crate::utils::text::{bytes_eq, text_eq};
use vstd::prelude::*;

verus! {

/// `"GET"` on the wire.
pub const GET: [u8; 3] = [71, 69, 84];

/// `"POST"` on the wire.
pub const POST: [u8; 4] = [80, 79, 83, 84];

/// Anything that names a method.
pub trait IntoHttpMethod {
    /// The method that the value names.
    spec fn method(&self) -> HttpMethod;

    fn into_http_method(self) -> (m: HttpMethod)
        ensures
            m == self.method(),
    ;
}

#[derive(Debug, Hash, PartialEq, Eq, Clone, Copy, Structural)]
#[non_exhaustive]
pub enum HttpMethod {
    GET,
    POST,
}

impl HttpMethod {
    /// The method as text.
    pub open spec fn text(self) -> Seq<char> {
        match self {
            HttpMethod::GET => "GET"@,
            HttpMethod::POST => "POST"@,
        }
    }

    /// The method as it stands in a start-line.
    pub open spec fn wire(self) -> Seq<u8> {
        match self {
            HttpMethod::GET => GET@,
            HttpMethod::POST => POST@,
        }
    }

    /// The method that a text names. A text that names none falls back to
    /// `GET`: an unknown method is no error.
    pub open spec fn of_text(text: Seq<char>) -> HttpMethod {
        if text == "POST"@ {
            HttpMethod::POST
        } else {
            HttpMethod::GET
        }
    }

    /// The method that a token of a start-line names, with the same fallback.
    pub open spec fn of_wire(token: Seq<u8>) -> HttpMethod {
        if token == POST@ {
            HttpMethod::POST
        } else {
            HttpMethod::GET
        }
    }

    pub fn to_string(&self) -> (s: String)
        ensures
            s@ == self.text(),
    {
        match self {
            HttpMethod::GET => String::from_str("GET"),
            HttpMethod::POST => String::from_str("POST"),
        }
    }

    /// The bytes of the method in a start-line.
    pub fn to_bytes(&self) -> (bytes: Vec<u8>)
        ensures
            bytes@ == self.wire(),
    {
        match self {
            HttpMethod::GET => vstd::slice::slice_to_vec(GET.as_slice()),
            HttpMethod::POST => vstd::slice::slice_to_vec(POST.as_slice()),
        }
    }

    /// Reading back what was written gives the method back, and the written
    /// form holds no space and no carriage return.
    pub proof fn lemma_wire_round_trip(self)
        ensures
            HttpMethod::of_wire(self.wire()) == self,
            forall|i: int| 0 <= i < self.wire().len() ==> self.wire()[i] != 32 && self.wire()[i] != 13,
    {
        assert(GET@.len() == 3);
        assert(POST@.len() == 4);
    }
}

impl Default for HttpMethod {
    fn default() -> (m: Self)
        ensures
            m == HttpMethod::GET,
    {
        HttpMethod::GET
    }
}

impl IntoHttpMethod for &str {
    open spec fn method(&self) -> HttpMethod {
        HttpMethod::of_text(self@)
    }

    fn into_http_method(self) -> (m: HttpMethod) {
        proof {
            reveal_strlit("GET");
            reveal_strlit("POST");
            assert("GET"@.len() != "POST"@.len());
        }
        if text_eq(self, "GET") {
            HttpMethod::GET
        } else if text_eq(self, "POST") {
            HttpMethod::POST
        } else {
            HttpMethod::GET
        }
    }
}

impl IntoHttpMethod for String {
    open spec fn method(&self) -> HttpMethod {
        HttpMethod::of_text(self@)
    }

    fn into_http_method(self) -> (m: HttpMethod) {
        self.as_str().into_http_method()
    }
}

impl IntoHttpMethod for &String {
    open spec fn method(&self) -> HttpMethod {
        HttpMethod::of_text(self@)
    }

    fn into_http_method(self) -> (m: HttpMethod) {
        self.as_str().into_http_method()
    }
}

impl IntoHttpMethod for HttpMethod {
    open spec fn method(&self) -> HttpMethod {
        *self
    }

    fn into_http_method(self) -> (m: HttpMethod) {
        self
    }
}

impl From<HttpMethod> for Vec<u8> {
    fn from(value: HttpMethod) -> (bytes: Vec<u8>)
        ensures
            bytes@ == value.wire(),
    {
        value.to_bytes()
    }
}

impl vstd::std_specs::convert::FromSpecImpl<HttpMethod> for Vec<u8> {
    open spec fn obeys_from_spec() -> bool {
        false
    }

    open spec fn from_spec(value: HttpMethod) -> Vec<u8> {
        arbitrary()
    }
}

impl<'a> From<&'a [u8]> for HttpMethod {
    fn from(value: &'a [u8]) -> (m: HttpMethod) {
        if bytes_eq(value, GET.as_slice()) {
            HttpMethod::GET
        } else if bytes_eq(value, POST.as_slice()) {
            HttpMethod::POST
        } else {
            HttpMethod::GET
        }
    }
}

impl<'a> vstd::std_specs::convert::FromSpecImpl<&'a [u8]> for HttpMethod {
    open spec fn obeys_from_spec() -> bool {
        true
    }

    open spec fn from_spec(value: &'a [u8]) -> HttpMethod {
        HttpMethod::of_wire(value@)
    }
}

} // verus!
