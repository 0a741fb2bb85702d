//! The state of one request, as the reader keeps it: the fields read so
//! far, the header store, and the token or header line that is being read.

use crate::grammar::{
    at_end, consume, finish_line, finish_token, fresh_line, header_byte, initial, method_of,
    next_field, settled, token_byte, version_of, without_cr, word, Field, HttpMethod,
    HttpVersion, LineView, ParseError, RequestView, COLON, CR, LF, SP,
};
use crate::store::{store_contains, store_contents, store_get, store_insert, store_new};
use crate::text::utf8_text;
use chashmap::CHashMap;
use vstd::prelude::*;
use vstd::slice::slice_subrange;
use vstd::string::*;

verus! {

/// Whether the token is the word `text`, byte for byte.
pub fn spells(token: &[u8], text: &str) -> (r: bool)
    ensures
        r == (token@ == word(text@)),
{
    let n = text.unicode_len();
    if token.len() != n {
        return false;
    }
    let mut i: usize = 0;
    while i < n
        invariant
            i <= n,
            n == text@.len(),
            n == token@.len(),
            forall|j: int| 0 <= j < i ==> token@[j] == text@[j] as u8,
        decreases n - i,
    {
        if token[i] != text.get_char(i) as u8 {
            return false;
        }
        i += 1;
    }
    assert(token@ =~= word(text@));
    true
}

/// The method that a token names.
pub fn method_named(token: &[u8]) -> (r: Option<HttpMethod>)
    ensures
        r == method_of(token@),
{
    if spells(token, "GET") {
        Some(HttpMethod::Get)
    } else if spells(token, "POST") {
        Some(HttpMethod::Post)
    } else if spells(token, "PUT") {
        Some(HttpMethod::Put)
    } else if spells(token, "DELETE") {
        Some(HttpMethod::Delete)
    } else if spells(token, "HEAD") {
        Some(HttpMethod::Head)
    } else {
        None
    }
}

/// The version that a token names, the carriage return at its end left
/// aside.
pub fn version_named(token: &[u8]) -> (r: Option<HttpVersion>)
    ensures
        r == version_of(without_cr(token@)),
{
    let len = token.len();
    let n = if len > 0 && token[len - 1] == CR {
        len - 1
    } else {
        len
    };
    let text = slice_subrange(token, 0, n);
    assert(text@ =~= without_cr(token@));
    if spells(text, "HTTP/0.9") {
        Some(HttpVersion::Http0_9)
    } else if spells(text, "HTTP/1.0") {
        Some(HttpVersion::Http1_0)
    } else if spells(text, "HTTP/1.1") {
        Some(HttpVersion::Http1_1)
    } else {
        None
    }
}

/// The state of one request. It starts empty, each field is set once, and
/// the header section is closed once; nothing is ever taken back.
pub struct RequestState {
    method: Option<HttpMethod>,
    resource: Option<String>,
    version: Option<HttpVersion>,
    headers: CHashMap<String, String>,
    headers_finished: bool,
    pending: Vec<u8>,
    line_name: Vec<u8>,
    line_value: Vec<u8>,
    is_name: bool,
    is_start: bool,
    blank: bool,
    failure: Option<ParseError>,
}

impl View for RequestState {
    type V = RequestView;

    closed spec fn view(&self) -> RequestView {
        RequestView {
            method: self.method,
            resource: match self.resource {
                Some(text) => Some(text@),
                None => None,
            },
            version: self.version,
            headers: store_contents(self.headers),
            headers_finished: self.headers_finished,
            pending: self.pending@,
            line: LineView {
                name: self.line_name@,
                value: self.line_value@,
                is_name: self.is_name,
                is_start: self.is_start,
            },
            blank: self.blank,
            failure: self.failure,
        }
    }
}

impl RequestState {
    /// The state of a request of which nothing has been read.
    pub fn new() -> (r: RequestState)
        ensures
            r@ == initial(),
    {
        let r = RequestState {
            method: None,
            resource: None,
            version: None,
            headers: store_new(),
            headers_finished: false,
            pending: Vec::new(),
            line_name: Vec::new(),
            line_value: Vec::new(),
            is_name: true,
            is_start: true,
            blank: false,
            failure: None,
        };
        assert(r@.line =~= fresh_line());
        r
    }

    /// Whether the state takes no more bytes.
    pub fn settled(&self) -> (r: bool)
        ensures
            r == settled(self@),
    {
        self.failure.is_some() || self.headers_finished
    }

    /// The method, once it has been read.
    pub fn method(&self) -> (r: Option<HttpMethod>)
        ensures
            r == self@.method,
    {
        self.method
    }

    /// The version, once it has been read.
    pub fn version(&self) -> (r: Option<HttpVersion>)
        ensures
            r == self@.version,
    {
        self.version
    }

    /// A copy of the resource, once it has been read.
    pub fn resource(&self) -> (r: Option<String>)
        ensures
            r is Some == self@.resource is Some,
            r is Some ==> r.unwrap()@ == self@.resource.unwrap(),
    {
        match &self.resource {
            Some(text) => Some(text.clone()),
            None => None,
        }
    }

    /// A copy of the value stored for the header `name`, if one is.
    pub fn header(&self, name: &str) -> (r: Option<String>)
        ensures
            r is Some == self@.headers.contains_key(name@),
            r is Some ==> r.unwrap()@ == self@.headers[name@],
    {
        store_get(&self.headers, name)
    }

    /// Whether the resource has been read.
    pub fn has_resource(&self) -> (r: bool)
        ensures
            r == self@.resource is Some,
    {
        self.resource.is_some()
    }

    /// Whether a value is stored for the header `name`.
    pub fn has_header(&self, name: &str) -> (r: bool)
        ensures
            r == self@.headers.contains_key(name@),
    {
        store_contains(&self.headers, name)
    }

    /// Whether the header section has been read to its end.
    pub fn headers_finished(&self) -> (r: bool)
        ensures
            r == self@.headers_finished,
    {
        self.headers_finished
    }

    /// The failure that ended the reading, if one did.
    pub fn failure(&self) -> (r: Option<ParseError>)
        ensures
            r == self@.failure,
    {
        self.failure
    }

    /// The bytes of the token that is being read or, after a failure, of the
    /// token that was refused.
    pub fn pending(&self) -> (r: &Vec<u8>)
        ensures
            r@ == self@.pending,
    {
        &self.pending
    }

    /// Completes the token gathered so far.
    fn finish_token(&mut self, field: Field)
        requires
            next_field(old(self)@) == Some(field),
        ensures
            final(self)@ == finish_token(old(self)@, field),
    {
        match field {
            Field::Method => match method_named(self.pending.as_slice()) {
                Some(m) => {
                    self.method = Some(m);
                    self.pending = Vec::new();
                },
                None => {
                    self.failure = Some(ParseError::UnknownMethod);
                },
            },
            Field::Resource => match utf8_text(self.pending.as_slice()) {
                Some(text) => {
                    self.resource = Some(String::from_str(text));
                    self.pending = Vec::new();
                },
                None => {
                    self.failure = Some(ParseError::InvalidUtf8);
                },
            },
            Field::Version => match version_named(self.pending.as_slice()) {
                Some(v) => {
                    self.version = Some(v);
                    self.pending = Vec::new();
                },
                None => {
                    self.failure = Some(ParseError::UnsupportedVersion);
                },
            },
        }
    }

    /// Takes one byte of a token of the request line.
    fn token_byte(&mut self, field: Field, b: u8)
        requires
            next_field(old(self)@) == Some(field),
        ensures
            final(self)@ == token_byte(old(self)@, field, b),
    {
        let delimiter = match field {
            Field::Method => SP,
            Field::Resource => SP,
            Field::Version => LF,
        };
        if b == 0 {
            self.failure = Some(ParseError::NulByte);
        } else if b == delimiter {
            self.finish_token(field);
        } else {
            self.pending.push(b);
        }
    }

    /// Completes the header line gathered so far.
    fn finish_line(&mut self)
        requires
            old(self)@.version is Some,
        ensures
            final(self)@ == finish_line(old(self)@),
    {
        let name = utf8_text(self.line_name.as_slice());
        let value = utf8_text(self.line_value.as_slice());
        if name.is_some() && value.is_some() {
            let name = name.unwrap();
            if !store_contains(&self.headers, name) {
                store_insert(
                    &mut self.headers,
                    String::from_str(name),
                    String::from_str(value.unwrap()),
                );
            }
            self.line_name = Vec::new();
            self.line_value = Vec::new();
            self.is_name = true;
            self.is_start = true;
            assert(final(self)@.line =~= fresh_line());
        } else {
            self.failure = Some(ParseError::InvalidUtf8);
        }
    }

    /// Takes one byte of the header section.
    fn header_byte(&mut self, b: u8)
        requires
            old(self)@.version is Some,
        ensures
            final(self)@ == header_byte(old(self)@, b),
    {
        if b == 0 {
            self.failure = Some(ParseError::NulByte);
        } else if b == CR {
            if self.is_start {
                self.headers_finished = true;
            }
        } else if self.blank {
            self.failure = Some(ParseError::TrailingData(b));
        } else if b == LF {
            if self.is_start {
                self.blank = true;
            } else {
                self.finish_line();
            }
        } else if b == COLON && self.is_name {
            self.is_name = false;
            self.is_start = false;
        } else if self.is_name {
            self.is_start = false;
            self.line_name.push(b);
        } else {
            self.is_start = false;
            self.line_value.push(b);
        }
    }

    /// Takes the next byte of the stream.
    pub fn consume(&mut self, b: u8)
        ensures
            final(self)@ == consume(old(self)@, b),
    {
        if self.settled() {
        } else if self.method.is_none() {
            self.token_byte(Field::Method, b);
        } else if self.resource.is_none() {
            self.token_byte(Field::Resource, b);
        } else if self.version.is_none() {
            self.token_byte(Field::Version, b);
        } else {
            self.header_byte(b);
        }
    }

    /// Takes the end of the stream.
    pub fn at_end(&mut self)
        ensures
            final(self)@ == at_end(old(self)@),
    {
        if self.settled() {
        } else if self.method.is_none() {
            self.finish_token(Field::Method);
        } else if self.resource.is_none() {
            self.finish_token(Field::Resource);
        } else if self.version.is_none() {
            self.finish_token(Field::Version);
        } else if self.is_start {
            self.headers_finished = true;
        } else {
            self.finish_line();
        }
    }
}

} // verus!
