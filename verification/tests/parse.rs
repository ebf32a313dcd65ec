use std::{collections::HashMap, io::BufRead};

use http_sv::error::ParseError;
use http_sv::utils::parse::{
    parse_map, parse_newline, parse_separator, parse_space, split_and_consume, split_before,
    tag_consume,
};

#[test]
fn test_parse_separator() {
    const REQUEST: &[u8] = b"GET / HTTP/1.1\r\nHost: example.com\r\n\r\nHello,World\r\n";
    let (headers, body) = parse_separator(REQUEST).unwrap();

    assert_eq!(headers, b"GET / HTTP/1.1\r\nHost: example.com");
    assert_eq!(body, b"Hello,World\r\n");
}

#[test]
fn test_parse_separator_no_body() {
    const REQUEST: &[u8] = b"GET / HTTP/1.1\r\nHost: example.com\r\n\r\n";
    let (headers, body) = parse_separator(REQUEST).unwrap();

    assert_eq!(headers, b"GET / HTTP/1.1\r\nHost: example.com");
    assert_eq!(body, b"");
}

#[test]
fn test_parse_newline() {
    const REQUEST: &[u8] = b"GET / HTTP/1.1\r\nHost: example.com\r\n\r\nHello,World\r\n";
    let (headers, body) = parse_newline(REQUEST).unwrap();

    assert_eq!(headers, b"GET / HTTP/1.1");
    assert_eq!(body, b"Host: example.com\r\n\r\nHello,World\r\n");
}

#[test]
fn test_parse_space() {
    const REQUEST: &[u8] = b"GET / HTTP/1.1";
    let (method, other) = parse_space(REQUEST).unwrap();
    let (path, version) = parse_space(other).unwrap();

    assert_eq!(method, b"GET");
    assert_eq!(path, b"/");
    assert_eq!(version, b"HTTP/1.1");
}

#[test]
fn test_parse_map() {
    const HEADER: &[u8] = b"Host: example.com\r\nContent-Length: 12\r\nConnection: close\r\n";
    let mut header: HashMap<String, String> = HashMap::new();
    for iter in HEADER.lines() {
        match iter {
            Ok(i) => {
                let (k, v) = parse_map(i.as_bytes()).unwrap();
                header.insert(
                    String::from_utf8_lossy(k).to_string(),
                    String::from_utf8_lossy(v).to_string(),
                );
            }
            Err(_) => panic!(""),
        }
    }

    assert_eq!(
        header.get(&"Host".to_string()),
        Some(&"example.com".to_string())
    );
    assert_eq!(
        header.get(&"Content-Length".to_string()),
        Some(&"12".to_string())
    );
    assert_eq!(
        header.get(&"Connection".to_string()),
        Some(&"close".to_string())
    );
}

#[test]
fn split_before_keeps_the_delimiter_in_the_rest() {
    let (prefix, rest) = split_before(b"key: value", b": ").unwrap();
    assert_eq!(prefix, b"key");
    assert_eq!(rest, b": value");
    assert!(split_before(b"key=value", b": ").is_none());
}

#[test]
fn tag_consume_takes_an_exact_prefix_or_fails() {
    assert_eq!(tag_consume(b"\r\nrest", b"\r\n"), Ok(&b"rest"[..]));
    assert_eq!(tag_consume(b"rest\r\n", b"\r\n"), Err(ParseError::ParseConsumeErr));
    assert_eq!(tag_consume(b"\r", b"\r\n"), Err(ParseError::ParseConsumeErr));
    assert_eq!(tag_consume(b"abc", b""), Ok(&b"abc"[..]));
}

#[test]
fn split_and_consume_with_the_delimiter_once_at_the_end() {
    let (prefix, rest) = split_and_consume(b"head\r\n\r\n", b"\r\n\r\n").unwrap();
    assert_eq!(prefix, b"head");
    assert_eq!(rest, b"");
}

#[test]
fn split_and_consume_takes_the_first_of_two_occurrences() {
    let (prefix, rest) = split_and_consume(b"a\r\n\r\nb\r\n\r\nc", b"\r\n\r\n").unwrap();
    assert_eq!(prefix, b"a");
    assert_eq!(rest, b"b\r\n\r\nc");
}

#[test]
fn split_and_consume_with_overlapping_occurrences() {
    let (prefix, rest) = split_and_consume(b"xaaay", b"aa").unwrap();
    assert_eq!(prefix, b"x");
    assert_eq!(rest, b"ay");
}

#[test]
fn split_and_consume_at_the_very_start_and_with_an_empty_delimiter() {
    let (prefix, rest) = split_and_consume(b" x", b" ").unwrap();
    assert_eq!(prefix, b"");
    assert_eq!(rest, b"x");
    let (prefix, rest) = split_and_consume(b"abc", b"").unwrap();
    assert_eq!(prefix, b"");
    assert_eq!(rest, b"abc");
}

#[test]
fn split_and_consume_without_the_delimiter() {
    assert!(split_and_consume(b"no blank line\r\n", b"\r\n\r\n").is_none());
    assert!(split_and_consume(b"", b"\r\n").is_none());
    assert!(split_and_consume(b"\r", b"\r\n").is_none());
}

#[test]
fn each_split_fails_with_its_own_error() {
    assert_eq!(parse_separator(b"GET / HTTP/1.1\r\n"), Err(ParseError::ParseSeparatorErr));
    assert_eq!(parse_newline(b"GET / HTTP/1.1"), Err(ParseError::ParseNewlineErr));
    assert_eq!(parse_space(b"GET"), Err(ParseError::ParseSpaceErr));
    assert_eq!(parse_map(b"Host:example.com"), Err(ParseError::ParseMapErr));
}

#[test]
fn parse_map_splits_at_the_first_colon_space() {
    let (key, value) = parse_map(b"Referer: http://a: b").unwrap();
    assert_eq!(key, b"Referer");
    assert_eq!(value, b"http://a: b");
}

#[test]
fn error_texts() {
    assert_eq!(ParseError::ParseSeparatorErr.to_string(), "解析分隔符失败");
    assert_eq!(ParseError::ParseNewlineErr.to_string(), "解析新行失败");
    assert_eq!(ParseError::ParseSpaceErr.to_string(), "解析空格失败");
    assert_eq!(ParseError::ParseMapErr.to_string(), "解析键值对失败");
    assert_eq!(ParseError::ParseConsumeErr.to_string(), "解析消耗失败");
}
