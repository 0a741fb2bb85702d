//! The grammar of a request head, byte by byte.
//!
//! A request head is the request line (method, resource and version, the
//! first two ended by a space and the last by a line feed) and the header
//! lines that follow it, up to a blank line. This module says what each
//! byte does to the state of a request, and what the end of the stream does;
//! it reads nothing itself.

use vstd::prelude::*;
use vstd::utf8::*;

verus! {

/// The methods that a request line can name.
#[derive(PartialEq, Eq, Debug, Clone, Copy, Structural)]
pub enum HttpMethod {
    Get,
    Post,
    Delete,
    Put,
    Head,
}

/// The versions of the protocol. No request line names `Http2_0`: it stands
/// here for a later upgrade of the connection.
#[derive(PartialEq, Eq, Debug, Clone, Copy, Structural)]
pub enum HttpVersion {
    Http0_9,
    Http1_0,
    Http1_1,
    Http2_0,
}

/// Why a request head cannot be read. Every one of these is final for the
/// connection.
#[derive(PartialEq, Eq, Debug, Clone, Copy, Structural)]
pub enum ParseError {
    /// A NUL byte stands in a token or in a header line.
    NulByte,
    /// The method is not one of the five known ones.
    UnknownMethod,
    /// The version is not one that a request line can name.
    UnsupportedVersion,
    /// The resource, or a header's name or value, is not UTF-8.
    InvalidUtf8,
    /// After a blank line came this byte, where only a carriage return may
    /// follow.
    TrailingData(u8),
}

impl HttpVersion {
    /// The version as a number: ten times the major version plus the minor
    /// one.
    pub open spec fn spec_number(self) -> u8 {
        match self {
            HttpVersion::Http0_9 => 9,
            HttpVersion::Http1_0 => 10,
            HttpVersion::Http1_1 => 11,
            HttpVersion::Http2_0 => 20,
        }
    }

    /// The version as a number: ten times the major version plus the minor
    /// one.
    pub fn number(&self) -> (r: u8)
        ensures
            r == self.spec_number(),
    {
        match self {
            HttpVersion::Http0_9 => 9,
            HttpVersion::Http1_0 => 10,
            HttpVersion::Http1_1 => 11,
            HttpVersion::Http2_0 => 20,
        }
    }
}

impl ParseError {
    /// Whether the failure lies in a token or a line itself, and not in
    /// what follows the header section.
    pub open spec fn spec_is_malformed_token(self) -> bool {
        !(self is TrailingData)
    }

    /// Whether the failure lies in a token or a line itself, and not in
    /// what follows the header section.
    pub fn is_malformed_token(&self) -> (r: bool)
        ensures
            r == self.spec_is_malformed_token(),
    {
        match self {
            ParseError::TrailingData(_) => false,
            _ => true,
        }
    }
}

/// The answer of a lazy field: its value, or the news that more bytes are
/// needed before it can be given.
#[derive(PartialEq, Eq, Debug)]
pub enum Poll<T> {
    Ready(T),
    Pending,
}

/// The space that ends the method and the resource.
pub const SP: u8 = ' ' as u8;

/// The line feed that ends the version and each header line.
pub const LF: u8 = '\n' as u8;

/// The carriage return that precedes a line feed and closes the header
/// section.
pub const CR: u8 = '\r' as u8;

/// The colon between a header's name and its value.
pub const COLON: u8 = ':' as u8;

/// The three tokens of the request line.
#[derive(PartialEq, Eq, Debug, Clone, Copy, Structural)]
pub enum Field {
    Method,
    Resource,
    Version,
}

/// A header line while it is read.
pub struct LineView {
    pub name: Seq<u8>,
    pub value: Seq<u8>,
    /// No colon has been seen in this line yet.
    pub is_name: bool,
    /// No byte of this line has been kept yet.
    pub is_start: bool,
}

/// The state of one request: the fields read so far, and what has been
/// gathered of the token or header line that is being read.
pub struct RequestView {
    pub method: Option<HttpMethod>,
    pub resource: Option<Seq<char>>,
    pub version: Option<HttpVersion>,
    pub headers: Map<Seq<char>, Seq<char>>,
    pub headers_finished: bool,
    /// The bytes of the token being read; after a failure, the bytes of the
    /// token that was refused.
    pub pending: Seq<u8>,
    pub line: LineView,
    /// A blank line has been seen: only the closing carriage return may
    /// follow.
    pub blank: bool,
    pub failure: Option<ParseError>,
}

/// A header line of which nothing has been read.
pub open spec fn fresh_line() -> LineView {
    LineView { name: Seq::empty(), value: Seq::empty(), is_name: true, is_start: true }
}

/// The state of a request of which nothing has been read.
pub open spec fn initial() -> RequestView {
    RequestView {
        method: None,
        resource: None,
        version: None,
        headers: Map::empty(),
        headers_finished: false,
        pending: Seq::empty(),
        line: fresh_line(),
        blank: false,
        failure: None,
    }
}

/// The bytes of a word written in ASCII.
pub open spec fn word(text: Seq<char>) -> Seq<u8> {
    Seq::new(text.len(), |i: int| text[i] as u8)
}

/// The method that a token names.
pub open spec fn method_of(token: Seq<u8>) -> Option<HttpMethod> {
    if token == word("GET"@) {
        Some(HttpMethod::Get)
    } else if token == word("POST"@) {
        Some(HttpMethod::Post)
    } else if token == word("PUT"@) {
        Some(HttpMethod::Put)
    } else if token == word("DELETE"@) {
        Some(HttpMethod::Delete)
    } else if token == word("HEAD"@) {
        Some(HttpMethod::Head)
    } else {
        None
    }
}

/// The token without the carriage return that ends it, if one does.
pub open spec fn without_cr(token: Seq<u8>) -> Seq<u8> {
    if token.len() > 0 && token.last() == CR {
        token.drop_last()
    } else {
        token
    }
}

/// The version that a text names.
pub open spec fn version_of(text: Seq<u8>) -> Option<HttpVersion> {
    if text == word("HTTP/0.9"@) {
        Some(HttpVersion::Http0_9)
    } else if text == word("HTTP/1.0"@) {
        Some(HttpVersion::Http1_0)
    } else if text == word("HTTP/1.1"@) {
        Some(HttpVersion::Http1_1)
    } else {
        None
    }
}

/// The byte that ends a token of the request line.
pub open spec fn delimiter(field: Field) -> u8 {
    match field {
        Field::Method => SP,
        Field::Resource => SP,
        Field::Version => LF,
    }
}

/// The token of the request line that is read next; `None` once the request
/// line is complete.
pub open spec fn next_field(p: RequestView) -> Option<Field> {
    if p.method is None {
        Some(Field::Method)
    } else if p.resource is None {
        Some(Field::Resource)
    } else if p.version is None {
        Some(Field::Version)
    } else {
        None
    }
}

/// The state after the failure `e`. Nothing else changes: what was gathered
/// of the refused token stays in `pending`.
pub open spec fn fail(p: RequestView, e: ParseError) -> RequestView {
    RequestView { failure: Some(e), ..p }
}

/// The state once the token gathered in `pending` is complete: the field is
/// set and `pending` emptied, or the token is refused.
pub open spec fn finish_token(p: RequestView, field: Field) -> RequestView {
    match field {
        Field::Method => match method_of(p.pending) {
            Some(m) => RequestView { method: Some(m), pending: Seq::empty(), ..p },
            None => fail(p, ParseError::UnknownMethod),
        },
        Field::Resource => if valid_utf8(p.pending) {
            RequestView { resource: Some(decode_utf8(p.pending)), pending: Seq::empty(), ..p }
        } else {
            fail(p, ParseError::InvalidUtf8)
        },
        Field::Version => match version_of(without_cr(p.pending)) {
            Some(v) => RequestView { version: Some(v), pending: Seq::empty(), ..p },
            None => fail(p, ParseError::UnsupportedVersion),
        },
    }
}

/// What the byte `b` does while a token of the request line is read: a NUL
/// is refused, the delimiter completes the token, any other byte joins it.
pub open spec fn token_byte(p: RequestView, field: Field, b: u8) -> RequestView {
    if b == 0 {
        fail(p, ParseError::NulByte)
    } else if b == delimiter(field) {
        finish_token(p, field)
    } else {
        RequestView { pending: p.pending.push(b), ..p }
    }
}

/// The headers after a line with this name and this value: the value is
/// stored under the name, unless the name has a value already, which stays.
pub open spec fn stored(
    headers: Map<Seq<char>, Seq<char>>,
    name: Seq<char>,
    value: Seq<char>,
) -> Map<Seq<char>, Seq<char>> {
    if headers.contains_key(name) {
        headers
    } else {
        headers.insert(name, value)
    }
}

/// The state once the header line gathered in `line` is complete: the pair
/// is stored and a new line starts; or the line is refused.
pub open spec fn finish_line(p: RequestView) -> RequestView {
    if valid_utf8(p.line.name) && valid_utf8(p.line.value) {
        RequestView {
            headers: stored(p.headers, decode_utf8(p.line.name), decode_utf8(p.line.value)),
            line: fresh_line(),
            ..p
        }
    } else {
        fail(p, ParseError::InvalidUtf8)
    }
}

/// What the byte `b` does in the header section.
///
/// - A NUL is refused.
/// - A line feed completes the line. At the start of a line it marks a blank
///   line instead, after which only a carriage return may follow.
/// - A carriage return at the start of a line closes the header section;
///   inside a line it belongs to the line's end and is dropped.
/// - The first colon of a line ends the name and is dropped.
/// - Any other byte joins the name or, after the colon, the value.
pub open spec fn header_byte(p: RequestView, b: u8) -> RequestView {
    if b == 0 {
        fail(p, ParseError::NulByte)
    } else if b == CR {
        if p.line.is_start {
            RequestView { headers_finished: true, ..p }
        } else {
            p
        }
    } else if p.blank {
        fail(p, ParseError::TrailingData(b))
    } else if b == LF {
        if p.line.is_start {
            RequestView { blank: true, ..p }
        } else {
            finish_line(p)
        }
    } else if b == COLON && p.line.is_name {
        RequestView { line: LineView { is_name: false, is_start: false, ..p.line }, ..p }
    } else if p.line.is_name {
        RequestView {
            line: LineView { name: p.line.name.push(b), is_start: false, ..p.line },
            ..p
        }
    } else {
        RequestView {
            line: LineView { value: p.line.value.push(b), is_start: false, ..p.line },
            ..p
        }
    }
}

/// Whether the state takes no more bytes: the head is complete or has been
/// refused.
pub open spec fn settled(p: RequestView) -> bool {
    p.failure is Some || p.headers_finished
}

/// What the byte `b` does to the state: it joins the token of the request
/// line that is being read or, after the request line, the header section.
/// A settled state is left as it is.
pub open spec fn consume(p: RequestView, b: u8) -> RequestView {
    if settled(p) {
        p
    } else {
        match next_field(p) {
            Some(field) => token_byte(p, field, b),
            None => header_byte(p, b),
        }
    }
}

/// The state after the bytes `bytes`, taken one by one.
pub open spec fn run(p: RequestView, bytes: Seq<u8>) -> RequestView
    decreases bytes.len(),
{
    if bytes.len() == 0 {
        p
    } else {
        run(consume(p, bytes[0]), bytes.skip(1))
    }
}

/// What the end of the stream does to the state: it completes the token or
/// the header line that is being read, and closes the header section at the
/// start of a line. A settled state is left as it is.
pub open spec fn at_end(p: RequestView) -> RequestView {
    if settled(p) {
        p
    } else {
        match next_field(p) {
            Some(field) => finish_token(p, field),
            None => if p.line.is_start {
                RequestView { headers_finished: true, ..p }
            } else {
                finish_line(p)
            },
        }
    }
}

/// The order of the fields: none is present before those that precede it in
/// the request, and nothing of the header section is touched before the
/// request line is complete.
pub open spec fn ordered(p: RequestView) -> bool {
    &&& p.resource is Some ==> p.method is Some
    &&& p.version is Some ==> p.resource is Some
    &&& p.version is None ==> {
        &&& p.headers == Map::<Seq<char>, Seq<char>>::empty()
        &&& !p.headers_finished
        &&& p.line == fresh_line()
        &&& !p.blank
    }
    &&& p.blank ==> p.line.is_start
}

} // verus!
