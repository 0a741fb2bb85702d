//! The request reader: the object that a connection handler asks for the
//! method, the resource, the version and the headers of a request, in any
//! order.
//!
//! Each field is read on first demand and kept. A field is read only after
//! those that precede it in the request, so asking for a later one reads the
//! earlier ones on the way. The reader never reads from the connection: when
//! it needs bytes it answers [`Poll::Pending`], the handler reads once and
//! calls [`HttpLazyStreamReader::refill`], and asks again.

use crate::cursor::{outcome_view, AsyncReadStream, Fetch, StreamView, CAPACITY};
use crate::grammar::{
    at_end, consume, initial, settled, HttpMethod, HttpVersion, ParseError, Poll, RequestView, LF,
};
use crate::state::RequestState;
use vstd::prelude::*;

verus! {

/// What a reader holds: the bytes that it has in store, and the state of the
/// request.
pub struct ReaderView {
    pub stream: StreamView,
    pub request: RequestView,
}

/// What a call asks the reader for.
pub enum Goal {
    Method,
    Resource,
    Version,
    /// The header of this name.
    Header(Seq<char>),
    /// The whole header section.
    AllHeaders,
}

/// Whether the state answers the goal. The whole header section is never
/// reached as a goal: reading for it stops when the state is settled.
pub open spec fn reached(p: RequestView, goal: Goal) -> bool {
    match goal {
        Goal::Method => p.method is Some,
        Goal::Resource => p.resource is Some,
        Goal::Version => p.version is Some,
        Goal::Header(name) => p.headers.contains_key(name),
        Goal::AllHeaders => false,
    }
}

/// How many times the end of the stream can still change the state: once
/// for each field that is left, and twice for the header section if a line
/// has been begun.
pub open spec fn rank(p: RequestView) -> nat {
    if settled(p) {
        0
    } else if p.method is None {
        5
    } else if p.resource is None {
        4
    } else if p.version is None {
        3
    } else if p.line.is_start {
        1
    } else {
        2
    }
}

/// The reader after it has taken the first of the bytes it has in store.
pub open spec fn fed(v: ReaderView) -> ReaderView {
    ReaderView {
        stream: StreamView { remaining: v.stream.remaining.skip(1), ..v.stream },
        request: consume(v.request, v.stream.remaining[0]),
    }
}

/// The reader after it has taken the end of the stream.
pub open spec fn ended(v: ReaderView) -> ReaderView {
    ReaderView { request: at_end(v.request), ..v }
}

/// The reader after it has read towards the goal as far as it can.
///
/// It stops where the goal is reached or the state is settled, and takes
/// nothing from the stream then. Otherwise it takes the bytes in store one
/// by one, and stops when there are no more. At the end of the stream it
/// completes what was begun and goes on, so that it never stops short of a
/// goal that the bytes it got can reach.
pub open spec fn drive(v: ReaderView, goal: Goal) -> ReaderView
    decreases v.stream.remaining.len(), rank(v.request),
{
    if reached(v.request, goal) || settled(v.request) {
        v
    } else if v.stream.remaining.len() > 0 {
        drive(fed(v), goal)
    } else if v.stream.finished {
        drive(ended(v), goal)
    } else {
        v
    }
}

/// The answer for the method in the state `p`.
pub open spec fn method_outcome(p: RequestView) -> Result<Poll<HttpMethod>, ParseError> {
    match p.method {
        Some(m) => Ok(Poll::Ready(m)),
        None => match p.failure {
            Some(e) => Err(e),
            None => Ok(Poll::Pending),
        },
    }
}

/// The answer for the resource in the state `p`.
pub open spec fn resource_outcome(p: RequestView) -> Result<Poll<Seq<char>>, ParseError> {
    match p.resource {
        Some(text) => Ok(Poll::Ready(text)),
        None => match p.failure {
            Some(e) => Err(e),
            None => Ok(Poll::Pending),
        },
    }
}

/// The answer for the version in the state `p`.
pub open spec fn version_outcome(p: RequestView) -> Result<Poll<HttpVersion>, ParseError> {
    match p.version {
        Some(v) => Ok(Poll::Ready(v)),
        None => match p.failure {
            Some(e) => Err(e),
            None => Ok(Poll::Pending),
        },
    }
}

/// The answer for the header `name` in the state `p`: its value where it is
/// stored, `None` where the header section has been read to its end without
/// it.
pub open spec fn header_answer(p: RequestView, name: Seq<char>) -> Result<
    Poll<Option<Seq<char>>>,
    ParseError,
> {
    if p.headers.contains_key(name) {
        Ok(Poll::Ready(Some(p.headers[name])))
    } else if p.headers_finished {
        Ok(Poll::Ready(None))
    } else {
        match p.failure {
            Some(e) => Err(e),
            None => Ok(Poll::Pending),
        }
    }
}

/// The goal of a lookup of the header `name`.
pub open spec fn lookup_goal(name: Seq<char>, get_all: bool) -> Goal {
    if get_all {
        Goal::AllHeaders
    } else {
        Goal::Header(name)
    }
}

/// The reader after a lookup of the header `name`: untouched where the
/// header is stored already, else driven towards the header or, with
/// `get_all`, through the whole header section.
pub open spec fn lookup_state(v: ReaderView, name: Seq<char>, get_all: bool) -> ReaderView {
    if v.request.headers.contains_key(name) {
        v
    } else {
        drive(v, lookup_goal(name, get_all))
    }
}

/// The answer of a lookup of the header `name` that started in the state
/// `before` and ended in the state `after`.
///
/// Without `get_all` it is the answer for the header in the state `after`.
/// With `get_all` a header is only answered from what was stored before the
/// lookup: the lookup itself fills the store, and answers `None` at the end
/// of the header section.
pub open spec fn lookup_outcome(
    before: RequestView,
    after: RequestView,
    name: Seq<char>,
    get_all: bool,
) -> Result<Poll<Option<Seq<char>>>, ParseError> {
    if !get_all || before.headers.contains_key(name) {
        header_answer(after, name)
    } else if after.headers_finished {
        Ok(Poll::Ready(None))
    } else {
        match after.failure {
            Some(e) => Err(e),
            None => Ok(Poll::Pending),
        }
    }
}

/// The answer for a text, as plain values.
pub open spec fn text_outcome(r: Result<Poll<String>, ParseError>) -> Result<
    Poll<Seq<char>>,
    ParseError,
> {
    match r {
        Ok(Poll::Ready(text)) => Ok(Poll::Ready(text@)),
        Ok(Poll::Pending) => Ok(Poll::Pending),
        Err(e) => Err(e),
    }
}

/// The answer for a header, as plain values.
pub open spec fn header_outcome(r: Result<Poll<Option<String>>, ParseError>) -> Result<
    Poll<Option<Seq<char>>>,
    ParseError,
> {
    match r {
        Ok(Poll::Ready(Some(text))) => Ok(Poll::Ready(Some(text@))),
        Ok(Poll::Ready(None)) => Ok(Poll::Ready(None)),
        Ok(Poll::Pending) => Ok(Poll::Pending),
        Err(e) => Err(e),
    }
}


/// What a call asks the reader for.
enum Target<'a> {
    Method,
    Resource,
    Version,
    Header(&'a str),
    AllHeaders,
}

impl<'a> View for Target<'a> {
    type V = Goal;

    closed spec fn view(&self) -> Goal {
        match self {
            Target::Method => Goal::Method,
            Target::Resource => Goal::Resource,
            Target::Version => Goal::Version,
            Target::Header(name) => Goal::Header(name@),
            Target::AllHeaders => Goal::AllHeaders,
        }
    }
}

/// The reader of one request: the cursor over the connection's stream and
/// the state of the request. Both are made with the reader and end with it.
pub struct HttpLazyStreamReader {
    stream: AsyncReadStream,
    inner: RequestState,
}

impl View for HttpLazyStreamReader {
    type V = ReaderView;

    closed spec fn view(&self) -> ReaderView {
        ReaderView { stream: self.stream@, request: self.inner@ }
    }
}

impl HttpLazyStreamReader {
    /// A reader for a connection from which nothing has been read.
    pub fn new() -> (r: HttpLazyStreamReader)
        ensures
            r@.request == initial(),
            r@.stream.remaining.len() == 0,
            !r@.stream.finished,
    {
        HttpLazyStreamReader { stream: AsyncReadStream::new(), inner: RequestState::new() }
    }

    /// Whether the reader can only go on after a read from the connection.
    pub fn starved(&self) -> (r: bool)
        ensures
            r == self@.stream.starved(),
    {
        self.stream.starved()
    }

    /// Takes the outcome of one read from the connection: the bytes that it
    /// brought, or `None` if it failed. A read that failed or brought nothing
    /// ends the stream. Returns whether the outcome was taken: it is only
    /// when the reader is starved, and no block larger than [`CAPACITY`] is.
    /// The state of the request is not touched.
    pub fn refill(&mut self, read: Option<&[u8]>) -> (taken: bool)
        ensures
            taken == old(self)@.stream.accepts(outcome_view(read)),
            final(self)@.request == old(self)@.request,
            final(self)@.stream == old(self)@.stream.refill(outcome_view(read)),
    {
        self.stream.refill(read)
    }

    /// The bytes of the token that is being read or, after a failure, of
    /// the token that was refused.
    pub fn refused_text(&self) -> (r: &Vec<u8>)
        ensures
            r@ == self@.request.pending,
    {
        self.inner.pending()
    }

    /// Whether the state answers the target.
    fn reached(&self, target: &Target) -> (r: bool)
        ensures
            r == reached(self@.request, target@),
    {
        match target {
            Target::Method => self.inner.method().is_some(),
            Target::Resource => self.inner.has_resource(),
            Target::Version => self.inner.version().is_some(),
            Target::Header(name) => self.inner.has_header(name),
            Target::AllHeaders => false,
        }
    }

    /// Reads towards the target as far as the bytes in store allow.
    fn advance(&mut self, target: &Target)
        ensures
            final(self)@ == drive(old(self)@, target@),
    {
        let mut done = self.reached(target);
        loop
            invariant
                done == reached(self@.request, target@),
                drive(old(self)@, target@) == drive(self@, target@),
            decreases self@.stream.remaining.len(), rank(self@.request),
        {
            if done || self.inner.settled() {
                return ;
            }
            match self.stream.next() {
                Fetch::Byte(b) => {
                    self.inner.consume(b);
                    let checks = match target {
                        Target::Header(_) => b == LF,
                        _ => true,
                    };
                    if checks {
                        done = self.reached(target);
                    }
                },
                Fetch::End => {
                    self.inner.at_end();
                    done = self.reached(target);
                },
                Fetch::Starved => {
                    return ;
                },
            }
        }
    }

    /// The method of the request.
    ///
    /// Fails for good on a NUL byte and on a token that is no known method.
    pub fn method(&mut self) -> (r: Result<Poll<HttpMethod>, ParseError>)
        ensures
            final(self)@ == drive(old(self)@, Goal::Method),
            r == method_outcome(final(self)@.request),
    {
        self.advance(&Target::Method);
        match self.inner.method() {
            Some(m) => Ok(Poll::Ready(m)),
            None => match self.inner.failure() {
                Some(e) => Err(e),
                None => Ok(Poll::Pending),
            },
        }
    }

    /// The resource of the request, read after the method.
    ///
    /// Fails for good on a NUL byte and on a token that is not UTF-8, and
    /// where the method has failed.
    pub fn resource(&mut self) -> (r: Result<Poll<String>, ParseError>)
        ensures
            final(self)@ == drive(old(self)@, Goal::Resource),
            text_outcome(r) == resource_outcome(final(self)@.request),
    {
        self.advance(&Target::Resource);
        match self.inner.resource() {
            Some(text) => Ok(Poll::Ready(text)),
            None => match self.inner.failure() {
                Some(e) => Err(e),
                None => Ok(Poll::Pending),
            },
        }
    }

    /// The version of the request, read after the resource.
    ///
    /// Fails for good on a NUL byte and on a token that names no version,
    /// and where the method or the resource has failed.
    pub fn version(&mut self) -> (r: Result<Poll<HttpVersion>, ParseError>)
        ensures
            final(self)@ == drive(old(self)@, Goal::Version),
            r == version_outcome(final(self)@.request),
    {
        self.advance(&Target::Version);
        match self.inner.version() {
            Some(v) => Ok(Poll::Ready(v)),
            None => match self.inner.failure() {
                Some(e) => Err(e),
                None => Ok(Poll::Pending),
            },
        }
    }

    /// Looks the header `name` up: in the store first, then in the header
    /// section, from where the last lookup stopped. Every header line read
    /// on the way is stored. With `get_all` the lookup does not stop at the
    /// header but reads the header section to its end.
    pub fn header_inner(&mut self, name: &str, get_all: bool) -> (r: Result<
        Poll<Option<String>>,
        ParseError,
    >)
        ensures
            final(self)@ == lookup_state(old(self)@, name@, get_all),
            header_outcome(r) == lookup_outcome(
                old(self)@.request,
                final(self)@.request,
                name@,
                get_all,
            ),
    {
        let stored = self.inner.header(name);
        if stored.is_some() {
            return Ok(Poll::Ready(stored));
        }
        if get_all {
            self.advance(&Target::AllHeaders);
        } else {
            self.advance(&Target::Header(name));
            let found = self.inner.header(name);
            if found.is_some() {
                return Ok(Poll::Ready(found));
            }
        }
        if self.inner.headers_finished() {
            return Ok(Poll::Ready(None));
        }
        match self.inner.failure() {
            Some(e) => Err(e),
            None => Ok(Poll::Pending),
        }
    }

    /// The value of the header `name`: `None` once the header section has
    /// been read to its end without it.
    ///
    /// A header that is stored is answered without reading. Else the header
    /// section is read on from where the last lookup stopped, every line on
    /// the way is stored, and the reading stops at the line of this name.
    pub fn header(&mut self, name: &str) -> (r: Result<Poll<Option<String>>, ParseError>)
        ensures
            final(self)@ == drive(old(self)@, Goal::Header(name@)),
            header_outcome(r) == header_answer(final(self)@.request, name@),
    {
        self.header_inner(name, false)
    }
}

} // verus!
