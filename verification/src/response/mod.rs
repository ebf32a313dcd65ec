//! Responses: the model and its bytes on the wire.

mod response;
pub mod response_util;

pub use response::{
    fresh_response, lemma_content_length_follows_body, lemma_written_content_length, response_bytes, text_page, with_body, IntoResponse, Response, ResponseView,
    StatusLine,
};
pub use response_util::{
    header_text, initial_response_headers, Connection, HttpResponse, HttpResponseHeader,
};
