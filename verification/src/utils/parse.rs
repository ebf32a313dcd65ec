//! The byte scanner: find a fixed delimiter, split around it, consume it.
//!
//! Every split of the wire format is one call of [`split_and_consume`] with
//! one of the four delimiters below.

use crate::error::ParseError;
use nom::error::ErrorKind;
use vstd::prelude::*;

verus! {

/// The blank line between header block and body, `"\r\n\r\n"`.
pub const SEPARATOR: [u8; 4] = [13, 10, 13, 10];

/// The end of a line, `"\r\n"`.
pub const NEWLINE: [u8; 2] = [13, 10];

/// What parts the tokens of the start-line, `" "`.
pub const SPACE: [u8; 1] = [32];

/// What parts a header's key from its value, `": "`.
pub const COLON: [u8; 2] = [58, 32];

#[verifier::external_type_specification]
#[verifier::external_body]
#[verifier::reject_recursive_types(E)]
pub struct ExNomErr<E>(nom::Err<E>);

#[verifier::external_type_specification]
#[verifier::external_body]
pub struct ExErrorKind(ErrorKind);

/// `needle` stands in `hay` at offset `i`.
pub open spec fn occurs_at(hay: Seq<u8>, needle: Seq<u8>, i: int) -> bool {
    0 <= i && i + needle.len() <= hay.len() && hay.subrange(i, i + needle.len()) == needle
}

/// `needle` stands somewhere in `hay`.
pub open spec fn contains(hay: Seq<u8>, needle: Seq<u8>) -> bool {
    exists|i: int| occurs_at(hay, needle, i)
}

/// `i` is the offset of the first occurrence of `needle` in `hay`.
pub open spec fn first_at(hay: Seq<u8>, needle: Seq<u8>, i: int) -> bool {
    occurs_at(hay, needle, i) && forall|j: int| 0 <= j < i ==> !occurs_at(hay, needle, j)
}

/// The offset of the first occurrence of `needle` in `hay`, where there is one.
pub open spec fn first_index(hay: Seq<u8>, needle: Seq<u8>) -> int {
    choose|i: int| first_at(hay, needle, i)
}

/// What lies before the first occurrence of `needle` and what lies after it;
/// `None` where `needle` does not occur.
pub open spec fn split(hay: Seq<u8>, needle: Seq<u8>) -> Option<(Seq<u8>, Seq<u8>)> {
    if contains(hay, needle) {
        let i = first_index(hay, needle);
        Some((hay.subrange(0, i), hay.subrange(i + needle.len(), hay.len() as int)))
    } else {
        None
    }
}

/// Two offsets that are both the first occurrence are the same offset.
pub proof fn lemma_first_unique(hay: Seq<u8>, needle: Seq<u8>, i: int, j: int)
    requires
        first_at(hay, needle, i),
        first_at(hay, needle, j),
    ensures
        i == j,
{
}

/// Below any occurrence there is a first one.
proof fn lemma_first_below(hay: Seq<u8>, needle: Seq<u8>, i: int)
    requires
        occurs_at(hay, needle, i),
    ensures
        exists|k: int| 0 <= k <= i && first_at(hay, needle, k),
    decreases i,
{
    if exists|j: int| 0 <= j < i && occurs_at(hay, needle, j) {
        let j = choose|j: int| 0 <= j < i && occurs_at(hay, needle, j);
        lemma_first_below(hay, needle, j);
    } else {
        assert(first_at(hay, needle, i));
    }
}

/// The first occurrence decides the split.
pub proof fn lemma_split_at(hay: Seq<u8>, needle: Seq<u8>, i: int)
    requires
        first_at(hay, needle, i),
    ensures
        split(hay, needle) == Some(
            (hay.subrange(0, i), hay.subrange(i + needle.len(), hay.len() as int)),
        ),
{
    assert(contains(hay, needle));
    lemma_first_unique(hay, needle, i, first_index(hay, needle));
}

/// Where `needle` occurs, the split is around a first occurrence.
pub proof fn lemma_split_some(hay: Seq<u8>, needle: Seq<u8>)
    requires
        contains(hay, needle),
    ensures
        first_at(hay, needle, first_index(hay, needle)),
        split(hay, needle) is Some,
{
    let i = choose|i: int| occurs_at(hay, needle, i);
    lemma_first_below(hay, needle, i);
}

/// What a split leaves is shorter than what was split, by the delimiter.
pub proof fn lemma_split_lengths(hay: Seq<u8>, needle: Seq<u8>)
    requires
        split(hay, needle) is Some,
    ensures
        split(hay, needle) matches Some(parts) && hay == parts.0 + needle + parts.1
            && parts.0.len() + needle.len() + parts.1.len() == hay.len(),
{
    lemma_split_some(hay, needle);
    let i = first_index(hay, needle);
    assert(hay =~= hay.subrange(0, i) + needle + hay.subrange(i + needle.len(), hay.len() as int));
}

/// No byte of `bytes` is `byte`.
pub open spec fn free_of(bytes: Seq<u8>, byte: u8) -> bool {
    forall|i: int| 0 <= i < bytes.len() ==> bytes[i] != byte
}

/// Bytes put together of parts that are free of a byte are free of it.
pub proof fn lemma_free_of_concat(a: Seq<u8>, b: Seq<u8>, byte: u8)
    requires
        free_of(a, byte),
        free_of(b, byte),
    ensures
        free_of(a + b, byte),
{
    assert forall|i: int| 0 <= i < (a + b).len() implies (a + b)[i] != byte by {
        if i < a.len() {
            assert((a + b)[i] == a[i]);
        } else {
            assert((a + b)[i] == b[i - a.len()]);
        }
    }
}

/// First-occurrence semantics: where the delimiter does not begin anywhere
/// before the end of `before`, a buffer made of `before`, the delimiter and
/// `after` splits into `before` and `after`, whatever `after` holds. With
/// nothing after the delimiter, the rest is empty.
pub proof fn lemma_split_concat(before: Seq<u8>, delimiter: Seq<u8>, after: Seq<u8>)
    requires
        forall|j: int|
            0 <= j < before.len() ==> !occurs_at(before + delimiter + after, delimiter, j),
    ensures
        split(before + delimiter + after, delimiter) == Some((before, after)),
{
    let hay = before + delimiter + after;
    let at = before.len() as int;
    assert(hay.subrange(at, at + delimiter.len()) =~= delimiter);
    assert(first_at(hay, delimiter, at));
    lemma_split_at(hay, delimiter, at);
    assert(hay.subrange(0, at) =~= before);
    assert(hay.subrange(at + delimiter.len(), hay.len() as int) =~= after);
}

/// A delimiter does not begin within bytes that are free of its first byte.
pub proof fn lemma_free_prefix(bytes: Seq<u8>, tail: Seq<u8>, needle: Seq<u8>)
    requires
        needle.len() > 0,
        free_of(bytes, needle[0]),
    ensures
        forall|j: int| 0 <= j < bytes.len() ==> !occurs_at(bytes + tail, needle, j),
{
    assert forall|j: int| 0 <= j < bytes.len() implies !occurs_at(bytes + tail, needle, j) by {
        if occurs_at(bytes + tail, needle, j) {
            let window = (bytes + tail).subrange(j, j + needle.len());
            assert(window[0] == needle[0]);
            assert(window[0] == bytes[j]);
        }
    }
}

/// Bytes that are free of the first byte of a delimiter do not hold it.
pub proof fn lemma_free_of_delimiter(bytes: Seq<u8>, needle: Seq<u8>)
    requires
        needle.len() > 0,
        free_of(bytes, needle[0]),
    ensures
        !contains(bytes, needle),
        split(bytes, needle) is None,
{
    lemma_free_prefix(bytes, Seq::empty(), needle);
    assert(bytes + Seq::<u8>::empty() =~= bytes);
}

/// nom's `bytes::complete::take_until`, applied to `input`. It succeeds where
/// `pattern` occurs in `input`, and then hands back, in this order, the input
/// from the first occurrence on and the input before it; the pattern itself is
/// not consumed. It fails where `pattern` does not occur.
#[verifier::external_body]
fn take_until<'a>(input: &'a [u8], pattern: &[u8]) -> (r: Result<
    (&'a [u8], &'a [u8]),
    nom::Err<(&'a [u8], ErrorKind)>,
>)
    ensures
        match r {
            Ok((rest, taken)) => {
                &&& first_at(input@, pattern@, taken@.len() as int)
                &&& taken@ == input@.subrange(0, taken@.len() as int)
                &&& rest@ == input@.subrange(taken@.len() as int, input@.len() as int)
            },
            Err(_) => !contains(input@, pattern@),
        },
{
    nom::bytes::complete::take_until(pattern)(input)
}

/// nom's `bytes::complete::tag`, applied to `input`. It succeeds where `input`
/// begins with `pattern`, and then hands back, in this order, the input after
/// the pattern and the matched bytes. It fails where `input` does not begin
/// with `pattern`.
#[verifier::external_body]
fn tag<'a>(input: &'a [u8], pattern: &[u8]) -> (r: Result<
    (&'a [u8], &'a [u8]),
    nom::Err<(&'a [u8], ErrorKind)>,
>)
    ensures
        match r {
            Ok((rest, matched)) => {
                &&& occurs_at(input@, pattern@, 0)
                &&& matched@ == pattern@
                &&& rest@ == input@.subrange(pattern@.len() as int, input@.len() as int)
            },
            Err(_) => !occurs_at(input@, pattern@, 0),
        },
{
    nom::bytes::complete::tag(pattern)(input)
}

/// Splits `input` before the first occurrence of `delimiter`: the bytes before
/// it, and the rest, which begins with the delimiter. `None` where the
/// delimiter does not occur.
pub fn split_before<'a>(input: &'a [u8], delimiter: &[u8]) -> (r: Option<(&'a [u8], &'a [u8])>)
    ensures
        r is Some <==> contains(input@, delimiter@),
        r matches Some((prefix, rest)) ==> {
            &&& first_at(input@, delimiter@, prefix@.len() as int)
            &&& prefix@ == input@.subrange(0, first_index(input@, delimiter@))
            &&& rest@ == input@.subrange(first_index(input@, delimiter@), input@.len() as int)
        },
{
    match take_until(input, delimiter) {
        Ok((rest, prefix)) => {
            proof {
                lemma_split_at(input@, delimiter@, prefix@.len() as int);
                lemma_first_unique(
                    input@,
                    delimiter@,
                    prefix@.len() as int,
                    first_index(input@, delimiter@),
                );
            }
            Some((prefix, rest))
        },
        Err(_) => None,
    }
}

/// Takes `consume` off the front of `input` and returns what follows it. Fails
/// with `ParseConsumeErr` exactly where `input` does not begin with `consume`.
pub fn tag_consume<'a>(input: &'a [u8], consume: &[u8]) -> (r: Result<&'a [u8], ParseError>)
    ensures
        match r {
            Ok(rest) => occurs_at(input@, consume@, 0) && rest@ == input@.subrange(
                consume@.len() as int,
                input@.len() as int,
            ),
            Err(e) => e == ParseError::ParseConsumeErr && !occurs_at(input@, consume@, 0),
        },
{
    match tag(input, consume) {
        Ok((rest, _)) => Ok(rest),
        Err(_) => Err(ParseError::ParseConsumeErr),
    }
}

/// Splits `input` around the first occurrence of `delimiter`: the bytes before
/// it and the bytes after it, the delimiter itself dropped. `None` exactly
/// where the delimiter does not occur.
pub fn split_and_consume<'a>(input: &'a [u8], delimiter: &[u8]) -> (r: Option<
    (&'a [u8], &'a [u8]),
>)
    ensures
        match r {
            Some((prefix, rest)) => split(input@, delimiter@) == Some((prefix@, rest@)),
            None => split(input@, delimiter@) is None,
        },
{
    match split_before(input, delimiter) {
        Some((prefix, tail)) => {
            let ghost i = prefix@.len() as int;
            proof {
                lemma_split_at(input@, delimiter@, i);
                assert(tail@.subrange(0, delimiter@.len() as int) =~= input@.subrange(
                    i,
                    i + delimiter@.len(),
                ));
            }
            match tag_consume(tail, delimiter) {
                Ok(rest) => {
                    assert(rest@ =~= input@.subrange(i + delimiter@.len(), input@.len() as int));
                    Some((prefix, rest))
                },
                Err(_) => {
                    assert(false);
                    None
                },
            }
        },
        None => None,
    }
}

/// Splits at the blank line: the header block, and the body after it. Fails
/// with `ParseSeparatorErr` exactly where the buffer holds no blank line.
pub fn parse_separator(input: &[u8]) -> (r: Result<(&[u8], &[u8]), ParseError>)
    ensures
        match r {
            Ok((head, body)) => split(input@, SEPARATOR@) == Some((head@, body@)),
            Err(e) => e == ParseError::ParseSeparatorErr && split(input@, SEPARATOR@) is None,
        },
{
    match split_and_consume(input, SEPARATOR.as_slice()) {
        Some(parts) => Ok(parts),
        None => Err(ParseError::ParseSeparatorErr),
    }
}

/// Splits at the first line break: the line, and what follows it. Fails with
/// `ParseNewlineErr` exactly where the input holds no line break.
pub fn parse_newline(input: &[u8]) -> (r: Result<(&[u8], &[u8]), ParseError>)
    ensures
        match r {
            Ok((line, rest)) => split(input@, NEWLINE@) == Some((line@, rest@)),
            Err(e) => e == ParseError::ParseNewlineErr && split(input@, NEWLINE@) is None,
        },
{
    match split_and_consume(input, NEWLINE.as_slice()) {
        Some(parts) => Ok(parts),
        None => Err(ParseError::ParseNewlineErr),
    }
}

/// Splits at the first space: the token before it, and what follows it. Fails
/// with `ParseSpaceErr` exactly where the input holds no space.
pub fn parse_space(input: &[u8]) -> (r: Result<(&[u8], &[u8]), ParseError>)
    ensures
        match r {
            Ok((token, rest)) => split(input@, SPACE@) == Some((token@, rest@)),
            Err(e) => e == ParseError::ParseSpaceErr && split(input@, SPACE@) is None,
        },
{
    match split_and_consume(input, SPACE.as_slice()) {
        Some(parts) => Ok(parts),
        None => Err(ParseError::ParseSpaceErr),
    }
}

/// Splits a header line at the first `": "`: the key, and the value, which
/// runs to the end of the line. Fails with `ParseMapErr` exactly where the
/// line holds no `": "`.
pub fn parse_map(input: &[u8]) -> (r: Result<(&[u8], &[u8]), ParseError>)
    ensures
        match r {
            Ok((key, value)) => split(input@, COLON@) == Some((key@, value@)),
            Err(e) => e == ParseError::ParseMapErr && split(input@, COLON@) is None,
        },
{
    match split_and_consume(input, COLON.as_slice()) {
        Some(parts) => Ok(parts),
        None => Err(ParseError::ParseMapErr),
    }
}

} // verus!
