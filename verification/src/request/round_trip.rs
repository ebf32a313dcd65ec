//! Writing a request out and framing it again.
//!
//! A request that holds no carriage return in its path, keys and values, no
//! space in its path and no `": "` in a key comes back from the wire as it
//! went, with `Content-Length` set; written out once more, it gives the same
//! bytes.

use super::request::{request_bytes, start_line_bytes, with_content_length, RequestView};
use super::{absorb, collect, header_lines, parsed_headers, parsed_request};
use crate::error::RequestError;
use crate::headers::{
    distinct_keys, has_key, header_block, header_line, key_index, lemma_key_index, lemma_put, put,
    HttpMethod, HttpVersion,
};
use crate::utils::parse::{
    contains, free_of, lemma_free_of_concat, lemma_free_of_delimiter, lemma_free_prefix,
    lemma_split_concat, occurs_at, split, COLON, NEWLINE, SEPARATOR, SPACE,
};
use crate::utils::text::{decimal, lemma_lossy_text_of_encoding, lossy_text};
use vstd::prelude::*;
use vstd::utf8::{encode_utf8, is_ascii_chars};

verus! {

/// A header that keeps its shape on the wire: no carriage return in key or
/// value, and no `": "` in the key.
pub open spec fn tidy_header(header: (Seq<char>, Seq<char>)) -> bool {
    &&& free_of(encode_utf8(header.0), 13)
    &&& free_of(encode_utf8(header.1), 13)
    &&& !contains(encode_utf8(header.0), COLON@)
}

/// A request that keeps its shape on the wire: a path without space and
/// carriage return, no key twice, and every header tidy.
pub open spec fn well_formed(request: RequestView) -> bool {
    &&& free_of(encode_utf8(request.path), 13)
    &&& free_of(encode_utf8(request.path), 32)
    &&& distinct_keys(request.headers)
    &&& forall|i: int| 0 <= i < request.headers.len() ==> tidy_header(#[trigger] request.headers[i])
}

/// A header line without its line break.
pub open spec fn raw_line(header: (Seq<char>, Seq<char>)) -> Seq<u8> {
    encode_utf8(header.0) + COLON@ + encode_utf8(header.1)
}

/// The header lines of a list, without their line breaks.
pub open spec fn raw_lines(headers: Seq<(Seq<char>, Seq<char>)>) -> Seq<Seq<u8>> {
    Seq::new(headers.len(), |i: int| raw_line(headers[i]))
}

/// Lines put together with a line break between each two.
pub open spec fn join(lines: Seq<Seq<u8>>) -> Seq<u8>
    decreases lines.len(),
{
    if lines.len() == 0 {
        Seq::empty()
    } else if lines.len() == 1 {
        lines[0]
    } else {
        lines[0] + NEWLINE@ + join(lines.drop_first())
    }
}

/// After every carriage return come two more bytes, the second of them no
/// carriage return: no blank line stands in the bytes or begins at their end.
pub open spec fn calm(bytes: Seq<u8>) -> bool {
    forall|j: int|
        0 <= j < bytes.len() && #[trigger] bytes[j] == 13 ==> j + 2 < bytes.len() && bytes[j + 2]
            != 13
}

/// Every line is free of carriage returns, and every line but the first holds
/// a byte.
pub open spec fn plain_lines(lines: Seq<Seq<u8>>) -> bool {
    &&& forall|i: int| 0 <= i < lines.len() ==> free_of(#[trigger] lines[i], 13)
    &&& forall|i: int| 1 <= i < lines.len() ==> (#[trigger] lines[i]).len() > 0
}

proof fn lemma_join_push(lines: Seq<Seq<u8>>, line: Seq<u8>)
    requires
        lines.len() > 0,
    ensures
        join(lines.push(line)) == join(lines) + NEWLINE@ + line,
    decreases lines.len(),
{
    let longer = lines.push(line);
    assert(longer.drop_first() =~= lines.drop_first().push(line));
    if lines.len() == 1 {
        assert(longer.drop_first() =~= seq![line]);
        assert(join(longer.drop_first()) == line);
        assert(join(longer) =~= join(lines) + NEWLINE@ + line);
    } else {
        lemma_join_push(lines.drop_first(), line);
        assert(join(longer) =~= join(lines) + NEWLINE@ + line);
    }
}

/// The header block is its lines joined, with one more line break.
proof fn lemma_block_is_joined(headers: Seq<(Seq<char>, Seq<char>)>)
    requires
        headers.len() > 0,
    ensures
        header_block(headers) == join(raw_lines(headers)) + NEWLINE@,
    decreases headers.len(),
{
    let last = headers.last();
    let front = headers.drop_last();
    assert(header_line(last.0, last.1) =~= raw_line(last) + NEWLINE@);
    if front.len() == 0 {
        assert(raw_lines(headers) =~= seq![raw_line(last)]);
        assert(header_block(front) =~= Seq::<u8>::empty());
        assert(header_block(headers) =~= raw_line(last) + NEWLINE@);
    } else {
        lemma_block_is_joined(front);
        assert(raw_lines(headers) =~= raw_lines(front).push(raw_line(last)));
        lemma_join_push(raw_lines(front), raw_line(last));
        assert(header_block(headers) =~= join(raw_lines(headers)) + NEWLINE@);
    }
}

/// Joined lines begin with the first line.
proof fn lemma_join_starts(lines: Seq<Seq<u8>>)
    requires
        lines.len() > 0,
    ensures
        join(lines).len() >= lines[0].len(),
        forall|j: int| 0 <= j < lines[0].len() ==> join(lines)[j] == lines[0][j],
{
}

/// Plain lines, joined, are calm.
proof fn lemma_join_calm(lines: Seq<Seq<u8>>)
    requires
        plain_lines(lines),
    ensures
        calm(join(lines)),
    decreases lines.len(),
{
    if lines.len() >= 2 {
        let rest = lines.drop_first();
        assert forall|i: int| 0 <= i < rest.len() implies free_of(#[trigger] rest[i], 13) by {
            assert(rest[i] == lines[i + 1]);
        }
        assert forall|i: int| 1 <= i < rest.len() implies (#[trigger] rest[i]).len() > 0 by {
            assert(rest[i] == lines[i + 1]);
        }
        lemma_join_calm(rest);
        lemma_join_starts(rest);
        let first = lines[0];
        let tail = join(rest);
        let all = join(lines);
        assert(rest[0] == lines[1]);
        assert(tail.len() > 0);
        assert(all =~= first + NEWLINE@ + tail);
        assert(NEWLINE@.len() == 2);
        assert forall|j: int| 0 <= j < all.len() && #[trigger] all[j] == 13 implies j + 2
            < all.len() && all[j + 2] != 13 by {
            if j < first.len() {
                assert(all[j] == first[j]);
            } else if j == first.len() {
                assert(all[j + 2] == tail[0]);
                assert(tail[0] == rest[0][0]);
            } else if j == first.len() + 1 {
                assert(all[j] == NEWLINE@[1]);
            } else {
                let k = j - first.len() - 2;
                assert(all[j] == tail[k]);
                assert(all[j + 2] == tail[k + 2]);
            }
        }
    } else if lines.len() == 1 {
        assert(free_of(lines[0], 13));
    }
}

/// Plain lines, joined, come apart again at their line breaks.
proof fn lemma_lines_of_joined(lines: Seq<Seq<u8>>)
    requires
        lines.len() > 0,
        forall|i: int| 0 <= i < lines.len() ==> free_of(#[trigger] lines[i], 13),
    ensures
        header_lines(join(lines)) == lines,
    decreases lines.len(),
{
    assert(NEWLINE@.len() == 2 && NEWLINE@[0] == 13);
    if lines.len() == 1 {
        lemma_free_of_delimiter(lines[0], NEWLINE@);
        assert(header_lines(join(lines)) =~= lines);
    } else {
        let rest = lines.drop_first();
        assert forall|i: int| 0 <= i < rest.len() implies free_of(#[trigger] rest[i], 13) by {
            assert(rest[i] == lines[i + 1]);
        }
        lemma_lines_of_joined(rest);
        let first = lines[0];
        let tail = join(rest);
        assert(join(lines) =~= first + NEWLINE@ + tail);
        lemma_free_prefix(first, NEWLINE@ + tail, NEWLINE@);
        assert(first + (NEWLINE@ + tail) =~= first + NEWLINE@ + tail);
        lemma_split_concat(first, NEWLINE@, tail);
        crate::utils::parse::lemma_split_lengths(join(lines), NEWLINE@);
        assert(header_lines(join(lines)) =~= seq![first] + header_lines(tail));
        assert(seq![first] + rest =~= lines);
    }
}

/// Before the end of a key that holds no `": "`, none begins in its line.
proof fn lemma_colon_not_in_key(key: Seq<u8>, value: Seq<u8>)
    requires
        !contains(key, COLON@),
    ensures
        forall|j: int| 0 <= j < key.len() ==> !occurs_at(key + COLON@ + value, COLON@, j),
{
    let line = key + COLON@ + value;
    assert(COLON@.len() == 2 && COLON@[0] == 58 && COLON@[1] == 32);
    assert forall|j: int| 0 <= j < key.len() implies !occurs_at(line, COLON@, j) by {
        if occurs_at(line, COLON@, j) {
            let window = line.subrange(j, j + 2);
            assert(window == COLON@);
            if j + 2 <= key.len() {
                assert(key.subrange(j, j + 2) =~= window);
                assert(occurs_at(key, COLON@, j));
            } else {
                assert(window[1] == line[j + 1]);
                assert(line[j + 1] == COLON@[0]);
            }
        }
    }
}

/// A tidy header line splits into the bytes of its key and of its value.
proof fn lemma_raw_line_splits(header: (Seq<char>, Seq<char>))
    requires
        !contains(encode_utf8(header.0), COLON@),
    ensures
        split(raw_line(header), COLON@) == Some((encode_utf8(header.0), encode_utf8(header.1))),
{
    let key = encode_utf8(header.0);
    let value = encode_utf8(header.1);
    lemma_colon_not_in_key(key, value);
    lemma_split_concat(key, COLON@, value);
}

/// A tidy header line holds a byte, and no carriage return.
proof fn lemma_raw_line_plain(header: (Seq<char>, Seq<char>))
    requires
        free_of(encode_utf8(header.0), 13),
        free_of(encode_utf8(header.1), 13),
    ensures
        free_of(raw_line(header), 13),
        raw_line(header).len() > 0,
{
    let key = encode_utf8(header.0);
    let value = encode_utf8(header.1);
    assert(COLON@.len() == 2 && COLON@[0] == 58 && COLON@[1] == 32);
    assert(free_of(COLON@, 13));
    lemma_free_of_concat(key, COLON@, 13);
    lemma_free_of_concat(key + COLON@, value, 13);
}

/// The lines of tidy headers without a repeated key give the headers back.
proof fn lemma_collect_raw_lines(headers: Seq<(Seq<char>, Seq<char>)>)
    requires
        distinct_keys(headers),
        forall|i: int| 0 <= i < headers.len() ==> tidy_header(#[trigger] headers[i]),
    ensures
        collect(raw_lines(headers)) == headers,
    decreases headers.len(),
{
    if headers.len() == 0 {
        assert(collect(raw_lines(headers)) =~= headers);
    } else {
        let front = headers.drop_last();
        let last = headers.last();
        assert forall|i: int| 0 <= i < front.len() implies tidy_header(#[trigger] front[i]) by {
            assert(front[i] == headers[i]);
        }
        assert forall|i: int, j: int| 0 <= i < j < front.len() implies (#[trigger] front[i]).0 != (
        #[trigger] front[j]).0 by {
            assert(front[i] == headers[i] && front[j] == headers[j]);
        }
        lemma_collect_raw_lines(front);
        assert(raw_lines(headers).drop_last() =~= raw_lines(front));
        assert(raw_lines(headers).last() == raw_line(last));
        lemma_raw_line_splits(last);
        lemma_lossy_text_of_encoding(last.0);
        lemma_lossy_text_of_encoding(last.1);
        assert(absorb(front, raw_line(last)) == put(front, last.0, last.1));
        assert(!has_key(front, last.0)) by {
            if has_key(front, last.0) {
                let i = key_index(front, last.0);
                assert(front[i] == headers[i]);
                assert(headers[i].0 != headers[headers.len() - 1].0);
            }
        }
        assert(front.push(last) =~= headers);
    }
}

/// The characters of a number in decimal are digits.
proof fn lemma_decimal_digits(n: nat)
    ensures
        decimal(n).len() > 0,
        forall|i: int| 0 <= i < decimal(n).len() ==> '0' <= #[trigger] decimal(n)[i] <= '9',
    decreases n,
{
    if n >= 10 {
        lemma_decimal_digits(n / 10);
    }
}

/// Text of ASCII characters is written as those characters, one byte each.
proof fn lemma_ascii_bytes(text: Seq<char>)
    requires
        is_ascii_chars(text),
    ensures
        encode_utf8(text).len() == text.len(),
        forall|i: int| 0 <= i < text.len() ==> (#[trigger] encode_utf8(text)[i]) == text[i] as u8,
{
    vstd::utf8::is_ascii_chars_encode_utf8(text);
}

/// The header that tells the length is tidy.
proof fn lemma_content_length_tidy(n: nat)
    ensures
        tidy_header(("Content-Length"@, decimal(n))),
{
    reveal_strlit("Content-Length");
    let name = "Content-Length"@;
    assert(name.len() == 14);
    assert forall|i: int| 0 <= i < name.len() implies 'A' <= #[trigger] name[i] <= 'z' || name[i]
        == '-' by {
        assert(name[0] == 'C' && name[1] == 'o' && name[2] == 'n' && name[3] == 't' && name[4]
            == 'e' && name[5] == 'n' && name[6] == 't' && name[7] == '-' && name[8] == 'L'
            && name[9] == 'e' && name[10] == 'n' && name[11] == 'g' && name[12] == 't' && name[13]
            == 'h');
    }
    assert(is_ascii_chars(name));
    lemma_ascii_bytes(name);
    let key = encode_utf8(name);
    assert forall|i: int| 0 <= i < key.len() implies key[i] != 13 && key[i] != 58 by {
        assert(key[i] == name[i] as u8);
        assert('A' <= name[i] <= 'z' || name[i] == '-');
    }
    assert(COLON@.len() == 2 && COLON@[0] == 58);
    assert(free_of(key, 58));
    lemma_free_of_delimiter(key, COLON@);
    lemma_decimal_digits(n);
    let digits = decimal(n);
    assert(is_ascii_chars(digits));
    lemma_ascii_bytes(digits);
    let value = encode_utf8(digits);
    assert forall|i: int| 0 <= i < value.len() implies value[i] != 13 by {
        assert(value[i] == digits[i] as u8);
        assert('0' <= digits[i] <= '9');
    }
}

/// Setting the length keeps a tidy list tidy and its keys apart.
proof fn lemma_measured_headers(headers: Seq<(Seq<char>, Seq<char>)>, body: Seq<u8>)
    requires
        distinct_keys(headers),
        forall|i: int| 0 <= i < headers.len() ==> tidy_header(#[trigger] headers[i]),
    ensures
        distinct_keys(with_content_length(headers, body)),
        with_content_length(headers, body).len() > 0,
        forall|i: int|
            0 <= i < with_content_length(headers, body).len() ==> tidy_header(
                #[trigger] with_content_length(headers, body)[i],
            ),
        with_content_length(with_content_length(headers, body), body) == with_content_length(
            headers,
            body,
        ),
{
    let key = "Content-Length"@;
    let value = decimal(body.len());
    let measured = put(headers, key, value);
    lemma_put(headers, key, value);
    lemma_content_length_tidy(body.len());
    let at = if has_key(headers, key) {
        key_index(headers, key)
    } else {
        headers.len() as int
    };
    assert(measured[at] == (key, value));
    assert forall|i: int| 0 <= i < measured.len() implies tidy_header(#[trigger] measured[i]) by {
        if i != at {
            assert(measured[i] == headers[i]);
        }
    }
    lemma_key_index(measured, at);
    assert(put(measured, key, value) =~= measured);
}

/// A token that is free of a delimiter's first byte, the delimiter and what
/// follows split into the token and what follows.
proof fn lemma_token_splits(token: Seq<u8>, delimiter: Seq<u8>, rest: Seq<u8>)
    requires
        delimiter.len() > 0,
        free_of(token, delimiter[0]),
    ensures
        split(token + delimiter + rest, delimiter) == Some((token, rest)),
{
    lemma_free_prefix(token, delimiter + rest, delimiter);
    assert(token + (delimiter + rest) =~= token + delimiter + rest);
    lemma_split_concat(token, delimiter, rest);
}

/// The start-line of a request whose path holds no carriage return holds
/// none.
proof fn lemma_start_line_plain(method: HttpMethod, path: Seq<char>, version: HttpVersion)
    requires
        free_of(encode_utf8(path), 13),
    ensures
        free_of(start_line_bytes(method, path, version), 13),
{
    let m = method.wire();
    let p = encode_utf8(path);
    let v = version.wire();
    method.lemma_wire_round_trip();
    version.lemma_wire_round_trip();
    assert(SPACE@.len() == 1 && SPACE@[0] == 32);
    assert(free_of(SPACE@, 13));
    lemma_free_of_concat(m, SPACE@, 13);
    lemma_free_of_concat(m + SPACE@, p, 13);
    lemma_free_of_concat(m + SPACE@ + p, SPACE@, 13);
    lemma_free_of_concat(m + SPACE@ + p + SPACE@, v, 13);
}

/// The first two spaces of the start-line of a request whose path holds no
/// space part method, path and version.
proof fn lemma_start_line(method: HttpMethod, path: Seq<char>, version: HttpVersion)
    requires
        free_of(encode_utf8(path), 32),
    ensures
        split(start_line_bytes(method, path, version), SPACE@) == Some(
            (method.wire(), encode_utf8(path) + SPACE@ + version.wire()),
        ),
        split(encode_utf8(path) + SPACE@ + version.wire(), SPACE@) == Some(
            (encode_utf8(path), version.wire()),
        ),
{
    let m = method.wire();
    let p = encode_utf8(path);
    let v = version.wire();
    method.lemma_wire_round_trip();
    assert(SPACE@.len() == 1 && SPACE@[0] == 32);
    assert(free_of(m, 32));
    lemma_token_splits(m, SPACE@, p + SPACE@ + v);
    assert(start_line_bytes(method, path, version) =~= m + SPACE@ + (p + SPACE@ + v));
    lemma_token_splits(p, SPACE@, v);
}

/// A start-line and header lines that hold no carriage return are parted
/// from the body by the first blank line, and from each other by the first
/// line break.
proof fn lemma_frame(start: Seq<u8>, lines: Seq<Seq<u8>>, body: Seq<u8>)
    requires
        free_of(start, 13),
        lines.len() > 0,
        forall|i: int| 0 <= i < lines.len() ==> free_of(#[trigger] lines[i], 13),
        forall|i: int| 0 <= i < lines.len() ==> (#[trigger] lines[i]).len() > 0,
    ensures
        split(start + NEWLINE@ + join(lines) + SEPARATOR@ + body, SEPARATOR@) == Some(
            (start + NEWLINE@ + join(lines), body),
        ),
        split(start + NEWLINE@ + join(lines), NEWLINE@) == Some((start, join(lines))),
{
    let all = seq![start] + lines;
    let head = start + NEWLINE@ + join(lines);
    assert(NEWLINE@.len() == 2 && NEWLINE@[0] == 13 && NEWLINE@[1] == 10);
    assert(SEPARATOR@.len() == 4 && SEPARATOR@[0] == 13 && SEPARATOR@[2] == 13);
    assert(all.drop_first() =~= lines);
    assert(join(all) =~= head);
    assert forall|i: int| 0 <= i < all.len() implies free_of(#[trigger] all[i], 13) by {
        if i > 0 {
            assert(all[i] == lines[i - 1]);
        }
    }
    assert forall|i: int| 1 <= i < all.len() implies (#[trigger] all[i]).len() > 0 by {
        assert(all[i] == lines[i - 1]);
    }
    lemma_join_calm(all);
    let hay = head + SEPARATOR@ + body;
    assert forall|j: int| 0 <= j < head.len() implies !occurs_at(hay, SEPARATOR@, j) by {
        if occurs_at(hay, SEPARATOR@, j) {
            let window = hay.subrange(j, j + 4);
            assert(window[0] == hay[j] && window[2] == hay[j + 2]);
            assert(hay[j] == head[j]);
            assert(hay[j + 2] == head[j + 2]);
        }
    }
    lemma_split_concat(head, SEPARATOR@, body);
    lemma_free_prefix(start, NEWLINE@ + join(lines), NEWLINE@);
    assert(start + (NEWLINE@ + join(lines)) =~= head);
    lemma_split_concat(start, NEWLINE@, join(lines));
}

/// The lines of tidy headers are plain and give the headers back.
proof fn lemma_header_lines(headers: Seq<(Seq<char>, Seq<char>)>)
    requires
        headers.len() > 0,
        distinct_keys(headers),
        forall|i: int| 0 <= i < headers.len() ==> tidy_header(#[trigger] headers[i]),
    ensures
        forall|i: int|
            0 <= i < raw_lines(headers).len() ==> free_of(#[trigger] raw_lines(headers)[i], 13),
        forall|i: int|
            0 <= i < raw_lines(headers).len() ==> (#[trigger] raw_lines(headers)[i]).len() > 0,
        parsed_headers(join(raw_lines(headers))) == headers,
{
    let lines = raw_lines(headers);
    assert forall|i: int| 0 <= i < lines.len() implies free_of(#[trigger] lines[i], 13)
        && lines[i].len() > 0 by {
        assert(tidy_header(headers[i]));
        lemma_raw_line_plain(headers[i]);
    }
    lemma_lines_of_joined(lines);
    lemma_collect_raw_lines(headers);
}

/// A well-formed request on the wire: start-line, line break, the header
/// lines joined, a blank line, the body.
proof fn lemma_request_bytes(request: RequestView)
    requires
        with_content_length(request.headers, request.body).len() > 0,
    ensures
        request_bytes(request) == start_line_bytes(request.method, request.path, request.version)
            + NEWLINE@ + join(raw_lines(with_content_length(request.headers, request.body)))
            + SEPARATOR@ + request.body,
        request_bytes(request).len() > 0,
{
    let headers = with_content_length(request.headers, request.body);
    lemma_block_is_joined(headers);
    assert(SEPARATOR@ =~= NEWLINE@ + NEWLINE@);
    assert(SEPARATOR@.len() == 4);
    assert(request_bytes(request) =~= start_line_bytes(
        request.method,
        request.path,
        request.version,
    ) + NEWLINE@ + join(raw_lines(headers)) + SEPARATOR@ + request.body);
}

/// What a buffer frames, once it is known where its delimiters part it.
proof fn lemma_framed(
    buffer: Seq<u8>,
    head: Seq<u8>,
    start: Seq<u8>,
    other: Seq<u8>,
    method: Seq<u8>,
    path: Seq<u8>,
    version: Seq<u8>,
    lines: Seq<u8>,
    body: Seq<u8>,
)
    requires
        buffer.len() > 0,
        split(buffer, SEPARATOR@) == Some((head, body)),
        split(head, NEWLINE@) == Some((start, lines)),
        split(start, SPACE@) == Some((method, other)),
        split(other, SPACE@) == Some((path, version)),
    ensures
        parsed_request(buffer) == Ok::<RequestView, RequestError>(
            RequestView {
                method: HttpMethod::of_wire(method),
                path: lossy_text(path),
                version: HttpVersion::of_wire(version),
                headers: parsed_headers(lines),
                body,
            },
        ),
{
}

/// Round-trip stability: a well-formed request, written out and framed
/// again, is the request with its `Content-Length` set, and writing that out
/// gives the same bytes once more.
pub proof fn lemma_round_trip(request: RequestView)
    requires
        well_formed(request),
    ensures
        parsed_request(request_bytes(request)) == Ok::<RequestView, RequestError>(
            RequestView {
                headers: with_content_length(request.headers, request.body),
                ..request
            },
        ),
        parsed_request(request_bytes(request)) matches Ok(framed) && request_bytes(framed)
            == request_bytes(request),
{
    let headers = with_content_length(request.headers, request.body);
    lemma_measured_headers(request.headers, request.body);
    let start = start_line_bytes(request.method, request.path, request.version);
    let method = request.method.wire();
    let path = encode_utf8(request.path);
    let version = request.version.wire();
    let lines = join(raw_lines(headers));
    let bytes = request_bytes(request);
    lemma_request_bytes(request);
    lemma_start_line(request.method, request.path, request.version);
    lemma_start_line_plain(request.method, request.path, request.version);
    lemma_header_lines(headers);
    lemma_frame(start, raw_lines(headers), request.body);
    lemma_framed(
        bytes,
        start + NEWLINE@ + lines,
        start,
        path + SPACE@ + version,
        method,
        path,
        version,
        lines,
        request.body,
    );
    request.method.lemma_wire_round_trip();
    request.version.lemma_wire_round_trip();
    lemma_lossy_text_of_encoding(request.path);
    let framed = RequestView { headers, ..request };
    assert(parsed_request(bytes) == Ok::<RequestView, RequestError>(framed));
    assert(request_bytes(framed) == request_bytes(request));
}

} // verus!
