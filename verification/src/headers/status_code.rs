//! The status of a response.

use crate::utils::text::text_eq;
use vstd::prelude::*;

verus! {

/// `"200 OK"` on the wire.
pub const OK: [u8; 6] = [50, 48, 48, 32, 79, 75];

/// `"404 Not Found"` on the wire.
pub const NOT_FOUND: [u8; 13] = [52, 48, 52, 32, 78, 111, 116, 32, 70, 111, 117, 110, 100];

/// Anything that names a status.
pub trait IntoStatusCode {
    /// The status that the value names.
    spec fn status(&self) -> StatusCode;

    fn into_status_code(self) -> (s: StatusCode)
        ensures
            s == self.status(),
    ;
}

#[derive(Debug, Clone, Copy, PartialEq, Eq, Structural)]
#[non_exhaustive]
pub enum StatusCode {
    OK,
    NotFound,
}

impl StatusCode {
    /// Code and reason as they stand in a status line.
    pub open spec fn wire(self) -> Seq<u8> {
        match self {
            StatusCode::OK => OK@,
            StatusCode::NotFound => NOT_FOUND@,
        }
    }

    /// The status that a text names: `OK` in any case of its two letters;
    /// every other text, known or not, is `NotFound`.
    pub open spec fn of_text(text: Seq<char>) -> StatusCode {
        if text == "OK"@ || text == "Ok"@ || text == "ok"@ || text == "oK"@ {
            StatusCode::OK
        } else {
            StatusCode::NotFound
        }
    }

    /// The status that a number names: 200 is `OK`; every other number, known
    /// or not, is `NotFound`.
    pub open spec fn of_number(code: nat) -> StatusCode {
        if code == 200 {
            StatusCode::OK
        } else {
            StatusCode::NotFound
        }
    }

    /// The bytes of code and reason on the wire.
    pub fn to_bytes(&self) -> (bytes: Vec<u8>)
        ensures
            bytes@ == self.wire(),
    {
        match self {
            StatusCode::OK => vstd::slice::slice_to_vec(OK.as_slice()),
            StatusCode::NotFound => vstd::slice::slice_to_vec(NOT_FOUND.as_slice()),
        }
    }
}

impl IntoStatusCode for StatusCode {
    open spec fn status(&self) -> StatusCode {
        *self
    }

    fn into_status_code(self) -> (s: StatusCode) {
        self
    }
}

impl IntoStatusCode for &str {
    open spec fn status(&self) -> StatusCode {
        StatusCode::of_text(self@)
    }

    fn into_status_code(self) -> (s: StatusCode) {
        if text_eq(self, "OK") || text_eq(self, "Ok") || text_eq(self, "ok") || text_eq(
            self,
            "oK",
        ) {
            StatusCode::OK
        } else {
            StatusCode::NotFound
        }
    }
}

impl IntoStatusCode for String {
    open spec fn status(&self) -> StatusCode {
        StatusCode::of_text(self@)
    }

    fn into_status_code(self) -> (s: StatusCode) {
        self.as_str().into_status_code()
    }
}

impl IntoStatusCode for &String {
    open spec fn status(&self) -> StatusCode {
        StatusCode::of_text(self@)
    }

    fn into_status_code(self) -> (s: StatusCode) {
        self.as_str().into_status_code()
    }
}

impl IntoStatusCode for u128 {
    open spec fn status(&self) -> StatusCode {
        StatusCode::of_number(*self as nat)
    }

    fn into_status_code(self) -> (s: StatusCode) {
        if self == 200 {
            StatusCode::OK
        } else {
            StatusCode::NotFound
        }
    }
}

impl IntoStatusCode for u64 {
    open spec fn status(&self) -> StatusCode {
        StatusCode::of_number(*self as nat)
    }

    fn into_status_code(self) -> (s: StatusCode) {
        (self as u128).into_status_code()
    }
}

impl IntoStatusCode for u32 {
    open spec fn status(&self) -> StatusCode {
        StatusCode::of_number(*self as nat)
    }

    fn into_status_code(self) -> (s: StatusCode) {
        (self as u128).into_status_code()
    }
}

impl IntoStatusCode for u16 {
    open spec fn status(&self) -> StatusCode {
        StatusCode::of_number(*self as nat)
    }

    fn into_status_code(self) -> (s: StatusCode) {
        (self as u128).into_status_code()
    }
}

impl From<StatusCode> for Vec<u8> {
    fn from(value: StatusCode) -> (bytes: Vec<u8>)
        ensures
            bytes@ == value.wire(),
    {
        value.to_bytes()
    }
}

impl vstd::std_specs::convert::FromSpecImpl<StatusCode> for Vec<u8> {
    open spec fn obeys_from_spec() -> bool {
        false
    }

    open spec fn from_spec(value: StatusCode) -> Vec<u8> {
        arbitrary()
    }
}

impl Default for StatusCode {
    fn default() -> (s: Self)
        ensures
            s == StatusCode::OK,
    {
        StatusCode::OK
    }
}

} // verus!
