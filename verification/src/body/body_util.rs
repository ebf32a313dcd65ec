//! The optional payload of a message.

use crate::utils::parse::NEWLINE;
use crate::utils::text::append;
use vstd::prelude::*;
use vstd::utf8::encode_utf8;

verus! {

/// Anything that can be read as bytes.
pub trait AsBytes {
    /// The bytes of the value.
    spec fn bytes(&self) -> Seq<u8>;

    fn byte_slice(&self) -> (slice: &[u8])
        ensures
            slice@ == self.bytes(),
    ;
}

impl AsBytes for String {
    open spec fn bytes(&self) -> Seq<u8> {
        encode_utf8(self@)
    }

    fn byte_slice(&self) -> (slice: &[u8]) {
        self.as_str().as_bytes()
    }
}

impl AsBytes for &str {
    open spec fn bytes(&self) -> Seq<u8> {
        encode_utf8(self@)
    }

    fn byte_slice(&self) -> (slice: &[u8]) {
        self.as_bytes()
    }
}

impl AsBytes for Vec<u8> {
    open spec fn bytes(&self) -> Seq<u8> {
        self@
    }

    fn byte_slice(&self) -> (slice: &[u8]) {
        self.as_slice()
    }
}

/// A body that may not have been set.
#[derive(Debug)]
pub struct Body<T> {
    body: Option<T>,
}

impl<T: AsBytes> Body<T> {
    /// The payload, if one was set.
    pub closed spec fn payload(&self) -> Option<T> {
        self.body
    }

    /// The body on the wire: nothing where no payload was set, else the
    /// payload followed by a line break.
    pub open spec fn wire(&self) -> Seq<u8> {
        match self.payload() {
            Some(payload) => payload.bytes() + NEWLINE@,
            None => Seq::empty(),
        }
    }

    /// A body without a payload.
    pub fn new() -> (body: Self)
        ensures
            body.payload() is None,
    {
        Body { body: None }
    }

    /// The body on the wire.
    pub fn serialize(&self) -> (bytes: Vec<u8>)
        ensures
            bytes@ == self.wire(),
    {
        let mut bytes: Vec<u8> = Vec::new();
        match &self.body {
            Some(payload) => {
                append(&mut bytes, payload.byte_slice());
                append(&mut bytes, NEWLINE.as_slice());
            },
            None => {},
        }
        bytes
    }

    /// Sets the payload; one that was set before is dropped.
    pub fn set_body(&mut self, val: T)
        ensures
            final(self).payload() == Some(val),
    {
        self.body = Some(val);
    }

    /// The length of the body on the wire.
    pub fn len(&self) -> (n: usize)
        ensures
            n == self.wire().len(),
    {
        self.serialize().len()
    }
}

/// A flat object of text fields.
#[derive(Debug)]
pub struct Tree(pub Vec<(String, String)>);

/// Objects, each with a text beside it.
#[derive(Debug)]
pub struct Json(pub Vec<(Tree, String)>);

} // verus!
