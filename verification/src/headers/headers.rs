//! The header map and the names and values it is filled with by default.

use crate::utils::parse::{COLON, NEWLINE};
use crate::utils::text::{append, clock_date, current_date, text_eq};
use vstd::prelude::*;
use vstd::utf8::encode_utf8;

verus! {

/// No key stands twice in the list.
pub open spec fn distinct_keys(headers: Seq<(Seq<char>, Seq<char>)>) -> bool {
    forall|i: int, j: int|
        0 <= i < j < headers.len() ==> (#[trigger] headers[i]).0 != (#[trigger] headers[j]).0
}

/// The list holds `key`. Keys are compared as they are stored: no case is
/// folded.
pub open spec fn has_key(headers: Seq<(Seq<char>, Seq<char>)>, key: Seq<char>) -> bool {
    exists|i: int| 0 <= i < headers.len() && (#[trigger] headers[i]).0 == key
}

/// Where `key` stands in the list, if it holds it.
pub open spec fn key_index(headers: Seq<(Seq<char>, Seq<char>)>, key: Seq<char>) -> int {
    choose|i: int| 0 <= i < headers.len() && (#[trigger] headers[i]).0 == key
}

/// The value stored under `key`.
pub open spec fn value_of(headers: Seq<(Seq<char>, Seq<char>)>, key: Seq<char>) -> Option<
    Seq<char>,
> {
    if has_key(headers, key) {
        Some(headers[key_index(headers, key)].1)
    } else {
        None
    }
}

/// The list after `value` was stored under `key`: a key that is there keeps
/// its place and takes the new value, a new key goes to the end.
pub open spec fn put(headers: Seq<(Seq<char>, Seq<char>)>, key: Seq<char>, value: Seq<char>) -> Seq<
    (Seq<char>, Seq<char>),
> {
    if has_key(headers, key) {
        headers.update(key_index(headers, key), (key, value))
    } else {
        headers.push((key, value))
    }
}

/// The list as a mapping from key to value.
pub open spec fn as_map(headers: Seq<(Seq<char>, Seq<char>)>) -> Map<Seq<char>, Seq<char>> {
    Map::new(|key: Seq<char>| has_key(headers, key), |key: Seq<char>| headers[key_index(headers, key)].1)
}

/// One header on the wire: key, `": "`, value, line break.
pub open spec fn header_line(key: Seq<char>, value: Seq<char>) -> Seq<u8> {
    encode_utf8(key) + COLON@ + encode_utf8(value) + NEWLINE@
}

/// The headers on the wire, one line each, in the order of the list.
pub open spec fn header_block(headers: Seq<(Seq<char>, Seq<char>)>) -> Seq<u8>
    decreases headers.len(),
{
    if headers.len() == 0 {
        Seq::empty()
    } else {
        header_block(headers.drop_last()) + header_line(headers.last().0, headers.last().1)
    }
}

/// The headers that a fresh message carries, `date` being the text of its
/// `Date` header.
pub open spec fn default_headers(date: Seq<char>) -> Seq<(Seq<char>, Seq<char>)> {
    seq![
        ("Date"@, date),
        ("Host"@, "127.0.0.1:8080"@),
        ("Content-Length"@, "0"@),
        ("Content-Type"@, "text/plain"@),
        ("Connection"@, "close"@),
    ]
}

/// In a list without a repeated key, a key is found where it stands.
pub proof fn lemma_key_index(headers: Seq<(Seq<char>, Seq<char>)>, i: int)
    requires
        distinct_keys(headers),
        0 <= i < headers.len(),
    ensures
        has_key(headers, headers[i].0),
        key_index(headers, headers[i].0) == i,
{
    let k = key_index(headers, headers[i].0);
    assert(0 <= k < headers.len() && headers[k].0 == headers[i].0);
    if k < i {
        assert(headers[k].0 != headers[i].0);
    } else if i < k {
        assert(headers[i].0 != headers[k].0);
    }
}

/// Storing keeps the keys apart, and afterwards the key holds the new value:
/// the last write wins.
pub proof fn lemma_put(headers: Seq<(Seq<char>, Seq<char>)>, key: Seq<char>, value: Seq<char>)
    requires
        distinct_keys(headers),
    ensures
        distinct_keys(put(headers, key, value)),
        value_of(put(headers, key, value), key) == Some(value),
        as_map(put(headers, key, value)) == as_map(headers).insert(key, value),
        put(headers, key, value).len() == headers.len() + (if has_key(headers, key) {
            0int
        } else {
            1int
        }),
{
    let after = put(headers, key, value);
    let at = if has_key(headers, key) {
        key_index(headers, key)
    } else {
        headers.len() as int
    };
    assert(0 <= at < after.len() && after[at] == (key, value));
    assert forall|i: int, j: int| 0 <= i < j < after.len() implies after[i].0 != after[j].0 by {
        if i != at && j != at {
            assert(after[i] == headers[i] && after[j] == headers[j]);
        } else if i == at {
            assert(after[j] == headers[j]);
            if has_key(headers, key) {
                assert(headers[at].0 == key);
            }
        } else {
            assert(after[i] == headers[i]);
            if has_key(headers, key) {
                assert(headers[at].0 == key);
            }
        }
    }
    lemma_key_index(after, at);
    assert forall|k: Seq<char>| has_key(after, k) == (k == key || has_key(headers, k)) by {
        if has_key(after, k) {
            let i = key_index(after, k);
            if i != at {
                assert(headers[i].0 == k);
            }
        }
        if has_key(headers, k) {
            let i = key_index(headers, k);
            assert(after[i].0 == k);
        }
    }
    assert forall|k: Seq<char>| has_key(headers, k) && k != key implies after[key_index(after, k)].1
        == headers[key_index(headers, k)].1 by {
        let i = key_index(headers, k);
        assert(after[i] == headers[i]);
        lemma_key_index(after, i);
    }
    assert(as_map(after) =~= as_map(headers).insert(key, value));
}

/// The names of the headers that the library itself sets.
#[derive(Debug, Hash, PartialEq, Eq, Clone, Copy, Structural)]
#[non_exhaustive]
pub enum Headers {
    Date,
    Host,
    ContentType,
    ContentLength,
    Connection,
}

impl Headers {
    /// The name as it stands in a header line.
    pub open spec fn text(self) -> Seq<char> {
        match self {
            Headers::Date => "Date"@,
            Headers::Host => "Host"@,
            Headers::ContentType => "Content-Type"@,
            Headers::ContentLength => "Content-Length"@,
            Headers::Connection => "Connection"@,
        }
    }

    pub fn to_string(&self) -> (s: String)
        ensures
            s@ == self.text(),
    {
        match self {
            Headers::Date => String::from_str("Date"),
            Headers::Host => String::from_str("Host"),
            Headers::ContentType => String::from_str("Content-Type"),
            Headers::ContentLength => String::from_str("Content-Length"),
            Headers::Connection => String::from_str("Connection"),
        }
    }

    /// No two names are the same text.
    pub proof fn lemma_names_differ(a: Headers, b: Headers)
        ensures
            a.text() == b.text() ==> a == b,
    {
        reveal_strlit("Date");
        reveal_strlit("Host");
        reveal_strlit("Content-Type");
        reveal_strlit("Content-Length");
        reveal_strlit("Connection");
        if a.text() == b.text() {
            assert(a.text().len() == b.text().len());
            assert(a.text()[0] == b.text()[0]);
        }
    }
}

/// The media types that the library itself names.
#[derive(Debug, Hash, PartialEq, Eq, Clone, Copy, Structural)]
#[non_exhaustive]
pub enum Mime {
    TextPlain,
    ApplicationJson,
}

impl Mime {
    /// The media type as it stands in a header line.
    pub open spec fn text(self) -> Seq<char> {
        match self {
            Mime::TextPlain => "text/plain"@,
            Mime::ApplicationJson => "application/Json"@,
        }
    }

    pub fn to_string(&self) -> (s: String)
        ensures
            s@ == self.text(),
    {
        match self {
            Mime::TextPlain => String::from_str("text/plain"),
            Mime::ApplicationJson => String::from_str("application/Json"),
        }
    }
}

/// The headers of a message: text keys with one text value each. A key stands
/// once; the entries keep the order in which their keys first came.
#[derive(Debug)]
pub struct HttpHeaders {
    entries: Vec<(String, String)>,
}

impl View for HttpHeaders {
    type V = Seq<(Seq<char>, Seq<char>)>;

    closed spec fn view(&self) -> Seq<(Seq<char>, Seq<char>)> {
        Seq::new(self.entries@.len(), |i: int| (self.entries@[i].0@, self.entries@[i].1@))
    }
}

impl HttpHeaders {
    #[verifier::type_invariant]
    spec fn keys_stand_once(&self) -> bool {
        distinct_keys(self@)
    }

    /// The empty map.
    pub fn new() -> (headers: Self)
        ensures
            headers@ == Seq::<(Seq<char>, Seq<char>)>::empty(),
    {
        let headers = HttpHeaders { entries: Vec::new() };
        assert(headers@ =~= Seq::<(Seq<char>, Seq<char>)>::empty());
        headers
    }

    /// How many headers there are. No key stands twice among them.
    pub fn len(&self) -> (n: usize)
        ensures
            n == self@.len(),
            distinct_keys(self@),
    {
        proof {
            use_type_invariant(self);
        }
        self.entries.len()
    }

    /// The `i`-th header: its key and its value.
    pub fn entry(&self, i: usize) -> (header: (&str, &str))
        requires
            i < self@.len(),
        ensures
            header.0@ == self@[i as int].0,
            header.1@ == self@[i as int].1,
    {
        (self.entries[i].0.as_str(), self.entries[i].1.as_str())
    }

    /// Where `key` stands.
    fn position(&self, key: &str) -> (at: Option<usize>)
        ensures
            distinct_keys(self@),
            match at {
                Some(i) => has_key(self@, key@) && i == key_index(self@, key@) && i < self@.len(),
                None => !has_key(self@, key@),
            },
    {
        proof {
            use_type_invariant(self);
        }
        let mut i: usize = 0;
        while i < self.entries.len()
            invariant
                i <= self.entries.len(),
                distinct_keys(self@),
                forall|j: int| 0 <= j < i ==> (#[trigger] self@[j]).0 != key@,
            decreases self.entries.len() - i,
        {
            if text_eq(self.entries[i].0.as_str(), key) {
                proof {
                    lemma_key_index(self@, i as int);
                }
                return Some(i);
            }
            i += 1;
        }
        None
    }

    /// The value stored under `key`, if there is one.
    pub fn get(&self, key: &str) -> (value: Option<&String>)
        ensures
            match value {
                Some(v) => value_of(self@, key@) == Some(v@),
                None => value_of(self@, key@) is None,
            },
    {
        match self.position(key) {
            Some(i) => Some(&self.entries[i].1),
            None => None,
        }
    }

    /// Stores `value` under `key`; a value that was there is replaced.
    pub fn insert(&mut self, key: String, value: String)
        ensures
            final(self)@ == put(old(self)@, key@, value@),
    {
        let at = self.position(key.as_str());
        proof {
            lemma_put(self@, key@, value@);
        }
        let mut taken = HttpHeaders::new();
        core::mem::swap(self, &mut taken);
        let mut entries = taken.entries;
        match at {
            Some(i) => {
                entries[i] = (key, value);
            },
            None => {
                entries.push((key, value));
            },
        }
        let ghost listed = Seq::new(entries@.len(), |i: int| (entries@[i].0@, entries@[i].1@));
        assert(listed =~= put(old(self)@, key@, value@));
        *self = HttpHeaders { entries };
        assert(self@ =~= listed);
    }

    /// Stores `value` under `key`; a value that was there is replaced.
    pub fn notify(&mut self, key: &str, value: &str)
        ensures
            final(self)@ == put(old(self)@, key@, value@),
    {
        self.insert(String::from_str(key), String::from_str(value));
    }

    /// The headers of a fresh message whose `Date` header is `date`.
    pub fn dated(date: String) -> (headers: Self)
        ensures
            headers@ == default_headers(date@),
    {
        proof {
            Headers::lemma_names_differ(Headers::Date, Headers::Host);
            Headers::lemma_names_differ(Headers::Date, Headers::ContentLength);
            Headers::lemma_names_differ(Headers::Date, Headers::ContentType);
            Headers::lemma_names_differ(Headers::Date, Headers::Connection);
            Headers::lemma_names_differ(Headers::Host, Headers::ContentLength);
            Headers::lemma_names_differ(Headers::Host, Headers::ContentType);
            Headers::lemma_names_differ(Headers::Host, Headers::Connection);
            Headers::lemma_names_differ(Headers::ContentLength, Headers::ContentType);
            Headers::lemma_names_differ(Headers::ContentLength, Headers::Connection);
            Headers::lemma_names_differ(Headers::ContentType, Headers::Connection);
        }
        let mut entries: Vec<(String, String)> = Vec::new();
        entries.push((Headers::Date.to_string(), date));
        entries.push((Headers::Host.to_string(), String::from_str("127.0.0.1:8080")));
        entries.push((Headers::ContentLength.to_string(), String::from_str("0")));
        entries.push((Headers::ContentType.to_string(), Mime::TextPlain.to_string()));
        entries.push((Headers::Connection.to_string(), String::from_str("close")));
        let ghost listed = Seq::new(entries@.len(), |i: int| (entries@[i].0@, entries@[i].1@));
        assert(listed =~= default_headers(date@));
        assert(distinct_keys(listed));
        let headers = HttpHeaders { entries };
        assert(headers@ =~= listed);
        headers
    }

    /// A copy with the same entries in the same order.
    pub fn duplicate(&self) -> (copy: Self)
        ensures
            copy@ == self@,
    {
        proof {
            use_type_invariant(self);
        }
        let mut entries: Vec<(String, String)> = Vec::new();
        let mut i: usize = 0;
        while i < self.entries.len()
            invariant
                i <= self.entries.len(),
                entries@.len() == i,
                forall|j: int|
                    0 <= j < i ==> (#[trigger] entries@[j]).0@ == self.entries@[j].0@
                        && entries@[j].1@ == self.entries@[j].1@,
            decreases self.entries.len() - i,
        {
            let key = self.entries[i].0.clone();
            let value = self.entries[i].1.clone();
            entries.push((key, value));
            i += 1;
        }
        let ghost listed = Seq::new(entries@.len(), |i: int| (entries@[i].0@, entries@[i].1@));
        assert(listed =~= self@);
        let copy = HttpHeaders { entries };
        assert(copy@ =~= listed);
        copy
    }

    /// The headers on the wire.
    pub fn to_bytes(&self) -> (bytes: Vec<u8>)
        ensures
            bytes@ == header_block(self@),
    {
        let mut bytes: Vec<u8> = Vec::new();
        let mut i: usize = 0;
        while i < self.entries.len()
            invariant
                i <= self.entries.len(),
                bytes@ == header_block(self@.subrange(0, i as int)),
            decreases self.entries.len() - i,
        {
            let ghost before = self@.subrange(0, i as int);
            let ghost next = self@.subrange(0, i + 1);
            assert(next.drop_last() =~= before);
            assert(next.last() == self@[i as int]);
            append(&mut bytes, self.entries[i].0.as_str().as_bytes());
            append(&mut bytes, COLON.as_slice());
            append(&mut bytes, self.entries[i].1.as_str().as_bytes());
            append(&mut bytes, NEWLINE.as_slice());
            assert(bytes@ =~= header_block(before) + header_line(self@[i as int].0, self@[i as int].1));
            i += 1;
        }
        assert(self@.subrange(0, i as int) =~= self@);
        bytes
    }
}

impl Clone for HttpHeaders {
    fn clone(&self) -> (copy: Self)
        ensures
            copy@ == self@,
    {
        self.duplicate()
    }
}

impl Default for HttpHeaders {
    /// The headers of a fresh message, dated by the clock.
    fn default() -> (headers: Self)
        ensures
            exists|date: Seq<char>| #[trigger] clock_date(date) && headers@ == default_headers(date),
    {
        HttpHeaders::dated(current_date())
    }
}

/// The headers on the wire: one line each, in the order of the map.
pub fn read_headers(input: &HttpHeaders) -> (bytes: Vec<u8>)
    ensures
        bytes@ == header_block(input@),
{
    input.to_bytes()
}

} // verus!
