//! Requests: the model, and the framing of raw bytes into one.
//!
//! Framing is one pass over the buffer, made of splits at fixed delimiters:
//! the blank line ends the header block, the first line break ends the
//! start-line, two spaces part its three tokens, and `": "` parts the key of
//! a header line from its value. A header line without `": "`, a blank line
//! among them, is passed over: it is no error. Method and version that are
//! not known fall back to their defaults, and text that is not UTF-8 is
//! decoded lossily.

mod request;
pub mod request_util;
pub mod round_trip;

pub use request_util::HttpRequest;
pub use request::{
    fresh_request, request_bytes, start_line_bytes, with_content_length, IntoRequest, Request,
    RequestView, StartLine,
};

use crate::error::{ParseError, RequestError};
use crate::headers::{put, HttpHeaders, HttpMethod, HttpVersion};
use crate::utils::parse::{
    lemma_split_lengths, parse_map, parse_newline, parse_separator, parse_space, split, COLON,
    NEWLINE, SEPARATOR, SPACE,
};
use crate::utils::text::{from_utf8_lossy, lossy_text};
use vstd::prelude::*;

verus! {

/// The headers after one more line was read: a line that holds `": "` stores
/// what follows under what precedes, every other line changes nothing.
pub open spec fn absorb(headers: Seq<(Seq<char>, Seq<char>)>, line: Seq<u8>) -> Seq<
    (Seq<char>, Seq<char>),
> {
    match split(line, COLON@) {
        Some((key, value)) => put(headers, lossy_text(key), lossy_text(value)),
        None => headers,
    }
}

/// The lines of a block, the line breaks between them dropped. A block
/// without a line break is one line.
pub open spec fn header_lines(block: Seq<u8>) -> Seq<Seq<u8>>
    decreases block.len(),
{
    match split(block, NEWLINE@) {
        Some((line, rest)) => {
            proof {
                lemma_split_lengths(block, NEWLINE@);
            }
            seq![line] + header_lines(rest)
        },
        None => seq![block],
    }
}

/// The headers that a sequence of lines gives, read from the first line on:
/// of two lines with one key the later one wins.
pub open spec fn collect(lines: Seq<Seq<u8>>) -> Seq<(Seq<char>, Seq<char>)>
    decreases lines.len(),
{
    if lines.len() == 0 {
        Seq::empty()
    } else {
        absorb(collect(lines.drop_last()), lines.last())
    }
}

/// The headers that the header lines of a block give.
pub open spec fn parsed_headers(block: Seq<u8>) -> Seq<(Seq<char>, Seq<char>)> {
    collect(header_lines(block))
}

/// The request that a buffer frames, or why it frames none.
pub open spec fn parsed_request(buffer: Seq<u8>) -> Result<RequestView, RequestError> {
    if buffer.len() == 0 {
        Err(RequestError::EmptyRequest)
    } else {
        match split(buffer, SEPARATOR@) {
            None => Err(RequestError::ParseError(ParseError::ParseSeparatorErr)),
            Some((head, body)) => match split(head, NEWLINE@) {
                None => Err(RequestError::ParseError(ParseError::ParseNewlineErr)),
                Some((start, lines)) => match split(start, SPACE@) {
                    None => Err(RequestError::ParseError(ParseError::ParseSpaceErr)),
                    Some((method, other)) => match split(other, SPACE@) {
                        None => Err(RequestError::ParseError(ParseError::ParseSpaceErr)),
                        Some((path, version)) => Ok(
                            RequestView {
                                method: HttpMethod::of_wire(method),
                                path: lossy_text(path),
                                version: HttpVersion::of_wire(version),
                                headers: parsed_headers(lines),
                                body,
                            },
                        ),
                    },
                },
            },
        }
    }
}

/// A block that splits at a line break is its first line followed by the
/// lines of the rest.
pub proof fn lemma_header_lines_step(block: Seq<u8>)
    requires
        split(block, NEWLINE@) is Some,
    ensures
        split(block, NEWLINE@) matches Some(parts) && header_lines(block) == seq![parts.0]
            + header_lines(parts.1),
{
    lemma_split_lengths(block, NEWLINE@);
    assert(NEWLINE@.len() == 2);
}

/// Reads the header lines of `block` into a header map.
pub fn parse_headers(block: &[u8]) -> (headers: HttpHeaders)
    ensures
        headers@ == parsed_headers(block@),
{
    let mut headers = HttpHeaders::new();
    let mut rest = block;
    let ghost mut done: Seq<Seq<u8>> = Seq::empty();
    assert(collect(done) =~= headers@);
    assert(done + header_lines(rest@) =~= header_lines(block@));
    loop
        invariant_except_break
            headers@ == collect(done),
            header_lines(block@) == done + header_lines(rest@),
        ensures
            headers@ == parsed_headers(block@),
        decreases rest@.len(),
    {
        match parse_newline(rest) {
            Ok((line, next)) => {
                proof {
                    lemma_header_lines_step(rest@);
                    lemma_split_lengths(rest@, NEWLINE@);
                    assert(NEWLINE@.len() == 2);
                    assert(done.push(line@).drop_last() =~= done);
                    assert(done.push(line@) + header_lines(next@) =~= done + (seq![line@]
                        + header_lines(next@)));
                }
                read_header_line(&mut headers, line);
                proof {
                    done = done.push(line@);
                }
                rest = next;
            },
            Err(_) => {
                proof {
                    assert(header_lines(rest@) == seq![rest@]);
                    assert(done.push(rest@).drop_last() =~= done);
                    assert(done + seq![rest@] =~= done.push(rest@));
                }
                read_header_line(&mut headers, rest);
                break ;
            },
        }
    }
    headers
}

/// Reads one header line into the map: a line without `": "` is passed over.
pub fn read_header_line(headers: &mut HttpHeaders, line: &[u8])
    ensures
        final(headers)@ == absorb(old(headers)@, line@),
{
    match parse_map(line) {
        Ok((key, value)) => {
            headers.insert(from_utf8_lossy(key), from_utf8_lossy(value));
        },
        Err(_) => {},
    }
}

/// Frames the bytes that a connection gave into a request.
///
/// It fails with `EmptyRequest` for no bytes at all, with `ParseSeparatorErr`
/// where no blank line ends the header block, with `ParseNewlineErr` where
/// that block holds no line break after the start-line, and with
/// `ParseSpaceErr` where the start-line holds fewer than two spaces. Every
/// other buffer frames a request.
pub fn parse_request(buffer: &[u8]) -> (framed: Result<Request, RequestError>)
    ensures
        match framed {
            Ok(request) => parsed_request(buffer@) == Ok::<RequestView, RequestError>(request@),
            Err(e) => parsed_request(buffer@) == Err::<RequestView, RequestError>(e),
        },
{
    if buffer.len() == 0 {
        return Err(RequestError::EmptyRequest);
    }
    let (head, body) = match parse_separator(buffer) {
        Ok(parts) => parts,
        Err(e) => {
            return Err(RequestError::from(e));
        },
    };
    let (start, lines) = match parse_newline(head) {
        Ok(parts) => parts,
        Err(e) => {
            return Err(RequestError::from(e));
        },
    };
    let (method, other) = match parse_space(start) {
        Ok(parts) => parts,
        Err(e) => {
            return Err(RequestError::from(e));
        },
    };
    let (path, version) = match parse_space(other) {
        Ok(parts) => parts,
        Err(e) => {
            return Err(RequestError::from(e));
        },
    };
    let headers = parse_headers(lines);
    let start_line = StartLine {
        method: HttpMethod::from(method),
        path: from_utf8_lossy(path),
        version: HttpVersion::from(version),
    };
    Ok(Request { start_line, headers, body: vstd::slice::slice_to_vec(body) })
}

} // verus!
