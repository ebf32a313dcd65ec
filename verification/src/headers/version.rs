//! The protocol version. It is a label: no version changes what is done.

use crate::utils::text::{bytes_eq, text_eq};
use vstd::prelude::*;

verus! {

/// `"HTTP/1.0"` on the wire.
pub const HTTP_1_0: [u8; 8] = [72, 84, 84, 80, 47, 49, 46, 48];

/// `"HTTP/1.1"` on the wire.
pub const HTTP_1_1: [u8; 8] = [72, 84, 84, 80, 47, 49, 46, 49];

/// `"HTTP/2"` on the wire.
pub const HTTP_2: [u8; 6] = [72, 84, 84, 80, 47, 50];

/// Anything that names a version.
pub trait IntoHttpVersion {
    /// The version that the value names.
    spec fn version(&self) -> HttpVersion;

    fn into_http_version(self) -> (v: HttpVersion)
        ensures
            v == self.version(),
    ;
}

#[derive(Debug, Clone, Copy, PartialEq, Eq, Structural)]
#[non_exhaustive]
pub enum HttpVersion {
    V1_0,
    V1_1,
    V2,
}

impl HttpVersion {
    /// The version as text.
    pub open spec fn text(self) -> Seq<char> {
        match self {
            HttpVersion::V1_0 => "HTTP/1.0"@,
            HttpVersion::V1_1 => "HTTP/1.1"@,
            HttpVersion::V2 => "HTTP/2"@,
        }
    }

    /// The version as it stands in a start-line or a status line.
    pub open spec fn wire(self) -> Seq<u8> {
        match self {
            HttpVersion::V1_0 => HTTP_1_0@,
            HttpVersion::V1_1 => HTTP_1_1@,
            HttpVersion::V2 => HTTP_2@,
        }
    }

    /// The version that a text names. A text that names none falls back to
    /// HTTP/1.1: an unknown version is no error.
    pub open spec fn of_text(text: Seq<char>) -> HttpVersion {
        if text == "HTTP/1.0"@ {
            HttpVersion::V1_0
        } else if text == "HTTP/2"@ {
            HttpVersion::V2
        } else {
            HttpVersion::V1_1
        }
    }

    /// The version that a token of a start-line names, with the same fallback.
    pub open spec fn of_wire(token: Seq<u8>) -> HttpVersion {
        if token == HTTP_1_0@ {
            HttpVersion::V1_0
        } else if token == HTTP_2@ {
            HttpVersion::V2
        } else {
            HttpVersion::V1_1
        }
    }

    pub fn to_string(&self) -> (s: String)
        ensures
            s@ == self.text(),
    {
        match self {
            HttpVersion::V1_0 => String::from_str("HTTP/1.0"),
            HttpVersion::V1_1 => String::from_str("HTTP/1.1"),
            HttpVersion::V2 => String::from_str("HTTP/2"),
        }
    }

    /// The bytes of the version on the wire.
    pub fn to_bytes(&self) -> (bytes: Vec<u8>)
        ensures
            bytes@ == self.wire(),
    {
        match self {
            HttpVersion::V1_0 => vstd::slice::slice_to_vec(HTTP_1_0.as_slice()),
            HttpVersion::V1_1 => vstd::slice::slice_to_vec(HTTP_1_1.as_slice()),
            HttpVersion::V2 => vstd::slice::slice_to_vec(HTTP_2.as_slice()),
        }
    }

    /// Reading back what was written gives the version back, and the written
    /// form holds no space and no carriage return.
    pub proof fn lemma_wire_round_trip(self)
        ensures
            HttpVersion::of_wire(self.wire()) == self,
            forall|i: int| 0 <= i < self.wire().len() ==> self.wire()[i] != 32 && self.wire()[i] != 13,
    {
        assert(HTTP_1_0@.len() == 8);
        assert(HTTP_1_1@.len() == 8);
        assert(HTTP_2@.len() == 6);
        assert(HTTP_1_0@[7] != HTTP_1_1@[7]);
    }
}

impl Default for HttpVersion {
    fn default() -> (v: Self)
        ensures
            v == HttpVersion::V1_1,
    {
        HttpVersion::V1_1
    }
}

impl IntoHttpVersion for &str {
    open spec fn version(&self) -> HttpVersion {
        HttpVersion::of_text(self@)
    }

    fn into_http_version(self) -> (v: HttpVersion) {
        proof {
            reveal_strlit("HTTP/1.0");
            reveal_strlit("HTTP/1.1");
            reveal_strlit("HTTP/2");
            assert("HTTP/1.0"@[7] != "HTTP/1.1"@[7]);
            assert("HTTP/2"@.len() != "HTTP/1.0"@.len());
            assert("HTTP/2"@.len() != "HTTP/1.1"@.len());
        }
        if text_eq(self, "HTTP/1.0") {
            HttpVersion::V1_0
        } else if text_eq(self, "HTTP/1.1") {
            HttpVersion::V1_1
        } else if text_eq(self, "HTTP/2") {
            HttpVersion::V2
        } else {
            HttpVersion::V1_1
        }
    }
}

impl IntoHttpVersion for HttpVersion {
    open spec fn version(&self) -> HttpVersion {
        *self
    }

    fn into_http_version(self) -> (v: HttpVersion) {
        self
    }
}

impl<'a> From<&'a [u8]> for HttpVersion {
    fn from(value: &'a [u8]) -> (v: HttpVersion) {
        if bytes_eq(value, HTTP_1_0.as_slice()) {
            HttpVersion::V1_0
        } else if bytes_eq(value, HTTP_1_1.as_slice()) {
            HttpVersion::V1_1
        } else if bytes_eq(value, HTTP_2.as_slice()) {
            HttpVersion::V2
        } else {
            HttpVersion::V1_1
        }
    }
}

impl<'a> vstd::std_specs::convert::FromSpecImpl<&'a [u8]> for HttpVersion {
    open spec fn obeys_from_spec() -> bool {
        true
    }

    open spec fn from_spec(value: &'a [u8]) -> HttpVersion {
        HttpVersion::of_wire(value@)
    }
}

impl From<HttpVersion> for Vec<u8> {
    fn from(value: HttpVersion) -> (bytes: Vec<u8>)
        ensures
            bytes@ == value.wire(),
    {
        value.to_bytes()
    }
}

impl vstd::std_specs::convert::FromSpecImpl<HttpVersion> for Vec<u8> {
    open spec fn obeys_from_spec() -> bool {
        false
    }

    open spec fn from_spec(value: HttpVersion) -> Vec<u8> {
        arbitrary()
    }
}

} // verus!
