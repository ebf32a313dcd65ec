//! What can become the body of a message.

use vstd::prelude::*;
use vstd::utf8::encode_utf8;

verus! {

/// Anything that can become the bytes of a body.
pub trait Body {
    /// The bytes that the value becomes.
    spec fn body_bytes(&self) -> Seq<u8>;

    fn into_body(self) -> (bytes: Vec<u8>)
        ensures
            bytes@ == self.body_bytes(),
    ;
}

impl Body for String {
    open spec fn body_bytes(&self) -> Seq<u8> {
        encode_utf8(self@)
    }

    fn into_body(self) -> (bytes: Vec<u8>) {
        vstd::slice::slice_to_vec(self.as_str().as_bytes())
    }
}

impl Body for &str {
    open spec fn body_bytes(&self) -> Seq<u8> {
        encode_utf8(self@)
    }

    fn into_body(self) -> (bytes: Vec<u8>) {
        vstd::slice::slice_to_vec(self.as_bytes())
    }
}

} // verus!
