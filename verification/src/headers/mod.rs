//! The enumerated parts of a message and its header map.

mod headers;
pub use headers::{
    as_map, default_headers, distinct_keys, has_key, header_block, header_line, key_index,
    lemma_key_index, lemma_put, put, read_headers, value_of, Headers, HttpHeaders, Mime,
};

mod method;
pub use method::{HttpMethod, IntoHttpMethod};

mod status_code;
pub use status_code::{IntoStatusCode, StatusCode};

mod version;
pub use version::{HttpVersion, IntoHttpVersion};
