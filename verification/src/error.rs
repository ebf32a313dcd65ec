//! The errors of framing and parsing.

use vstd::prelude::*;
use vstd::string::StringExecFns;

verus! {

/// Why a byte buffer could not be split where the wire format asks for it.
#[derive(Debug, Clone, Copy, PartialEq, Eq, Structural)]
pub enum ParseError {
    /// The blank line that ends the header block is missing: the framing error.
    ParseSeparatorErr,
    /// The header block holds no line break, so no start-line can be cut off.
    ParseNewlineErr,
    /// The start-line holds fewer than two spaces.
    ParseSpaceErr,
    /// A header line holds no `": "`.
    ParseMapErr,
    /// The input does not begin with the bytes that were to be consumed.
    ParseConsumeErr,
}

impl ParseError {
    /// The text of the error.
    pub open spec fn text(self) -> Seq<char> {
        match self {
            ParseError::ParseSeparatorErr => "解析分隔符失败"@,
            ParseError::ParseNewlineErr => "解析新行失败"@,
            ParseError::ParseSpaceErr => "解析空格失败"@,
            ParseError::ParseMapErr => "解析键值对失败"@,
            ParseError::ParseConsumeErr => "解析消耗失败"@,
        }
    }

    pub fn to_string(&self) -> (s: String)
        ensures
            s@ == self.text(),
    {
        match self {
            ParseError::ParseSeparatorErr => String::from_str("解析分隔符失败"),
            ParseError::ParseNewlineErr => String::from_str("解析新行失败"),
            ParseError::ParseSpaceErr => String::from_str("解析空格失败"),
            ParseError::ParseMapErr => String::from_str("解析键值对失败"),
            ParseError::ParseConsumeErr => String::from_str("解析消耗失败"),
        }
    }
}

/// Why no request came out of a connection's bytes.
#[derive(Debug, Clone, Copy, PartialEq, Eq, Structural)]
pub enum RequestError {
    /// The connection could not be read.
    ReadRequestErr,
    /// The connection gave no bytes.
    EmptyRequest,
    /// The bytes are not a framed request.
    ParseError(ParseError),
}

impl RequestError {
    /// The text of the error.
    pub open spec fn text(self) -> Seq<char> {
        match self {
            RequestError::ReadRequestErr => "读取请求失败"@,
            RequestError::EmptyRequest => "请求为空"@,
            RequestError::ParseError(inner) => "解析错误--> "@ + inner.text(),
        }
    }

    pub fn to_string(&self) -> (s: String)
        ensures
            s@ == self.text(),
    {
        match self {
            RequestError::ReadRequestErr => String::from_str("读取请求失败"),
            RequestError::EmptyRequest => String::from_str("请求为空"),
            RequestError::ParseError(inner) => {
                let detail = inner.to_string();
                String::from_str("解析错误--> ").concat(detail.as_str())
            },
        }
    }
}

impl From<ParseError> for RequestError {
    fn from(value: ParseError) -> (r: RequestError) {
        RequestError::ParseError(value)
    }
}

impl vstd::std_specs::convert::FromSpecImpl<ParseError> for RequestError {
    open spec fn obeys_from_spec() -> bool {
        true
    }

    open spec fn from_spec(value: ParseError) -> RequestError {
        RequestError::ParseError(value)
    }
}

} // verus!
