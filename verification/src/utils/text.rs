//! Text and bytes: comparing, decoding, writing a number down.

use vstd::prelude::*;
use vstd::utf8::{decode_utf8, encode_utf8, valid_utf8};

verus! {

/// Whether two byte slices hold the same bytes.
pub fn bytes_eq(a: &[u8], b: &[u8]) -> (same: bool)
    ensures
        same == (a@ == b@),
{
    if a.len() != b.len() {
        return false;
    }
    let mut i: usize = 0;
    while i < a.len()
        invariant
            i <= a.len(),
            a.len() == b.len(),
            forall|j: int| 0 <= j < i ==> a@[j] == b@[j],
        decreases a.len() - i,
    {
        if a[i] != b[i] {
            return false;
        }
        i += 1;
    }
    assert(a@ =~= b@);
    true
}

/// Whether two texts hold the same characters. Keys are compared as they are
/// stored: no case is folded.
pub fn text_eq(a: &str, b: &str) -> (same: bool)
    ensures
        same == (a@ == b@),
{
    let same = bytes_eq(a.as_bytes(), b.as_bytes());
    proof {
        vstd::utf8::encode_utf8_decode_utf8(a@);
        vstd::utf8::encode_utf8_decode_utf8(b@);
    }
    same
}

/// Appends `tail` to `bytes`.
pub fn append(bytes: &mut Vec<u8>, tail: &[u8])
    ensures
        final(bytes)@ == old(bytes)@ + tail@,
{
    bytes.extend_from_slice(tail);
    assert(bytes@ =~= old(bytes)@ + tail@);
}

/// The text that std's lossy decoding makes of bytes that are not UTF-8:
/// every ill-formed sequence is replaced by U+FFFD.
pub uninterp spec fn utf8_lossy(bytes: Seq<u8>) -> Seq<char>;

/// The text recovered from bytes: what they encode where they are UTF-8, and
/// otherwise the lossy decoding. Nothing is ever rejected.
pub open spec fn lossy_text(bytes: Seq<u8>) -> Seq<char> {
    if valid_utf8(bytes) {
        decode_utf8(bytes)
    } else {
        utf8_lossy(bytes)
    }
}

/// std's `String::from_utf8_lossy`: bytes that are valid UTF-8 come back as the
/// text they encode, unchanged; in other bytes each ill-formed sequence is
/// replaced, and the call never fails.
#[verifier::external_body]
pub(crate) fn from_utf8_lossy(bytes: &[u8]) -> (text: String)
    ensures
        text@ == lossy_text(bytes@),
        !valid_utf8(bytes@) ==> text@ == utf8_lossy(bytes@),
{
    String::from_utf8_lossy(bytes).into_owned()
}

/// Decoding what a text encodes gives the text back.
pub proof fn lemma_lossy_text_of_encoding(text: Seq<char>)
    ensures
        lossy_text(encode_utf8(text)) == text,
{
    vstd::utf8::encode_utf8_valid_utf8(text);
    vstd::utf8::encode_utf8_decode_utf8(text);
}

/// The character of one decimal digit.
pub open spec fn digit(d: nat) -> char
    recommends
        d < 10,
{
    if d == 0 {
        '0'
    } else if d == 1 {
        '1'
    } else if d == 2 {
        '2'
    } else if d == 3 {
        '3'
    } else if d == 4 {
        '4'
    } else if d == 5 {
        '5'
    } else if d == 6 {
        '6'
    } else if d == 7 {
        '7'
    } else if d == 8 {
        '8'
    } else {
        '9'
    }
}

/// A number in decimal, without sign or leading zeros.
pub open spec fn decimal(n: nat) -> Seq<char>
    decreases n,
{
    if n < 10 {
        seq![digit(n)]
    } else {
        decimal(n / 10).push(digit(n % 10))
    }
}

/// std's `to_string` of a `usize`: the number in decimal, as `Display` writes
/// an unsigned integer.
#[verifier::external_body]
pub(crate) fn usize_to_string(n: usize) -> (text: String)
    ensures
        text@ == decimal(n as nat),
{
    n.to_string()
}

/// `text` with every occurrence of `from` replaced by `to`, the occurrences
/// taken from the left and not overlapping.
pub open spec fn replaced(text: Seq<char>, from: Seq<char>, to: Seq<char>) -> Seq<char>
    decreases text.len(),
{
    if from.len() == 0 || text.len() < from.len() {
        text
    } else if text.subrange(0, from.len() as int) == from {
        to + replaced(text.subrange(from.len() as int, text.len() as int), from, to)
    } else {
        seq![text[0]] + replaced(text.subrange(1, text.len() as int), from, to)
    }
}

/// std's `str::replace` with a pattern that is not empty: all matches of the
/// pattern, found from the left without overlap, are replaced.
#[verifier::external_body]
pub(crate) fn replace(text: &str, from: &str, to: &str) -> (out: String)
    requires
        from@.len() > 0,
    ensures
        out@ == replaced(text@, from@, to@),
{
    text.replace(from, to)
}

/// The shape of RFC 2822 text for a moment in UTC: it ends with the offset
/// `+0000`, and no `+` stands before the offset.
pub open spec fn utc_rfc2822(text: Seq<char>) -> bool {
    &&& text.len() >= 5
    &&& text.subrange(text.len() - 5, text.len() as int) == "+0000"@
    &&& forall|i: int| 0 <= i < text.len() - 5 ==> text[i] != '+'
}

/// chrono's `Utc::now` and `DateTime::to_rfc2822`: the current time in UTC as
/// RFC 2822 text. chrono writes the short names of weekday and month, digits,
/// commas, colons and spaces, and then the offset, which for UTC is `+0000`.
/// Which moment the text tells depends on the clock, so no more is claimed.
/// chrono panics where the clock stands before 1970 or after the year 9999.
#[verifier::external_body]
pub(crate) fn utc_now_rfc2822() -> (text: String)
    ensures
        utc_rfc2822(text@),
{
    chrono::Utc::now().to_rfc2822()
}

/// The date text of a header: RFC 2822 text with the offset `+0000` written as
/// `GMT`.
pub open spec fn gmt_text(rfc2822: Seq<char>) -> Seq<char> {
    replaced(rfc2822, "+0000"@, "GMT"@)
}

/// Writes the UTC offset of an RFC 2822 date as `GMT`.
pub fn gmt_date(rfc2822: &str) -> (date: String)
    ensures
        date@ == gmt_text(rfc2822@),
{
    proof {
        reveal_strlit("+0000");
    }
    replace(rfc2822, "+0000", "GMT")
}

/// Whether `date` is a text that the clock may give for a `Date` header: the
/// RFC 2822 text of a moment in UTC, its offset written as `GMT`.
pub open spec fn clock_date(date: Seq<char>) -> bool {
    exists|rfc2822: Seq<char>| utc_rfc2822(rfc2822) && date == #[trigger] gmt_text(rfc2822)
}

/// Where the pattern stands at the end of a text and its first character
/// nowhere before, replacing changes the end and nothing else.
proof fn lemma_replaced_at_end(prefix: Seq<char>, from: Seq<char>, to: Seq<char>)
    requires
        from.len() > 0,
        forall|i: int| 0 <= i < prefix.len() ==> prefix[i] != from[0],
    ensures
        replaced(prefix + from, from, to) == prefix + to,
    decreases prefix.len(),
{
    let text = prefix + from;
    if prefix.len() == 0 {
        assert(text =~= from);
        assert(text.subrange(0, from.len() as int) =~= from);
        assert(text.subrange(from.len() as int, text.len() as int) =~= Seq::<char>::empty());
        assert(replaced(Seq::<char>::empty(), from, to) =~= Seq::<char>::empty());
        assert(replaced(text, from, to) =~= prefix + to);
    } else {
        assert(text.subrange(0, from.len() as int)[0] == prefix[0]);
        assert(text.subrange(1, text.len() as int) =~= prefix.drop_first() + from);
        lemma_replaced_at_end(prefix.drop_first(), from, to);
        assert(replaced(text, from, to) =~= seq![text[0]] + (prefix.drop_first() + to));
        assert(seq![text[0]] + (prefix.drop_first() + to) =~= prefix + to);
    }
}

/// The date text of a moment in UTC is its RFC 2822 text with `GMT` in the
/// place of the offset.
pub proof fn lemma_gmt_text(rfc2822: Seq<char>)
    requires
        utc_rfc2822(rfc2822),
    ensures
        gmt_text(rfc2822) == rfc2822.subrange(0, rfc2822.len() - 5) + "GMT"@,
{
    reveal_strlit("+0000");
    reveal_strlit("GMT");
    let prefix = rfc2822.subrange(0, rfc2822.len() - 5);
    assert("+0000"@.len() == 5 && "+0000"@[0] == '+');
    assert(rfc2822 =~= prefix + rfc2822.subrange(rfc2822.len() - 5, rfc2822.len() as int));
    lemma_replaced_at_end(prefix, "+0000"@, "GMT"@);
}

/// A date that the clock gives ends in `GMT`.
pub proof fn lemma_clock_date_ends_in_gmt(date: Seq<char>)
    requires
        clock_date(date),
    ensures
        date.len() >= 3,
        date.subrange(date.len() - 3, date.len() as int) == "GMT"@,
{
    reveal_strlit("GMT");
    let rfc2822 = choose|rfc2822: Seq<char>| utc_rfc2822(rfc2822) && date == #[trigger] gmt_text(
        rfc2822,
    );
    lemma_gmt_text(rfc2822);
    let prefix = rfc2822.subrange(0, rfc2822.len() - 5);
    assert("GMT"@.len() == 3);
    assert((prefix + "GMT"@).subrange(date.len() - 3, date.len() as int) =~= "GMT"@);
}

/// The current time as the text of a `Date` header: RFC 2822 text in UTC with
/// `GMT` for the offset. Which moment it tells depends on the clock: two
/// calls may differ.
pub fn current_date() -> (date: String)
    ensures
        clock_date(date@),
{
    let now = utc_now_rfc2822();
    let date = gmt_date(now.as_str());
    assert(date@ == gmt_text(now@));
    date
}

} // verus!
