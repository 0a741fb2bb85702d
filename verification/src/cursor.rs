//! The buffered stream cursor: one block of bytes from the connection, and a
//! position in it.
//!
//! The cursor does no reading itself. When it runs dry it says so, the
//! caller reads once from the connection and hands over what came.

use vstd::prelude::*;

verus! {

/// The size of the cursor's buffer, and so the most bytes one read may bring.
pub const CAPACITY: usize = 1024;

/// What the cursor answers when asked for a byte.
#[derive(Debug, Clone, Copy, PartialEq, Eq, Structural)]
pub enum Fetch {
    /// The next byte of the stream.
    Byte(u8),
    /// The stream has ended.
    End,
    /// The buffer is used up: the cursor needs to be refilled.
    Starved,
}

/// What the cursor has in store.
pub struct StreamView {
    /// The bytes read from the connection and not yet handed out.
    pub remaining: Seq<u8>,
    /// Whether the stream has ended.
    pub finished: bool,
}

impl StreamView {
    /// Whether the cursor must be refilled before it can hand out a byte.
    pub open spec fn starved(self) -> bool {
        !self.finished && self.remaining.len() == 0
    }

    /// What [`AsyncReadStream::next`] answers, and what it leaves.
    pub open spec fn next(self) -> (Fetch, StreamView) {
        if self.remaining.len() > 0 {
            (Fetch::Byte(self.remaining[0]), StreamView { remaining: self.remaining.skip(1), ..self })
        } else if self.finished {
            (Fetch::End, self)
        } else {
            (Fetch::Starved, self)
        }
    }

    /// Whether the cursor takes the outcome `read` of a read: `None` for a
    /// read that failed. It takes one only when it is starved, and no block
    /// larger than its buffer.
    pub open spec fn accepts(self, read: Option<Seq<u8>>) -> bool {
        &&& self.starved()
        &&& read matches Some(data) ==> data.len() <= CAPACITY
    }

    /// What [`AsyncReadStream::refill`] leaves after a read with the outcome
    /// `read`. A read that failed or brought nothing ends the stream; any
    /// other fills the buffer anew. An outcome that the cursor does not
    /// take changes nothing.
    pub open spec fn refill(self, read: Option<Seq<u8>>) -> StreamView {
        if !self.accepts(read) {
            self
        } else {
            match read {
                Some(data) if data.len() > 0 => StreamView { remaining: data, finished: false },
                _ => StreamView { remaining: Seq::empty(), finished: true },
            }
        }
    }
}

/// The outcome of a read as plain values.
pub open spec fn outcome_view(read: Option<&[u8]>) -> Option<Seq<u8>> {
    match read {
        Some(data) => Some(data@),
        None => None,
    }
}

/// The cursor over the stream of one connection.
pub struct AsyncReadStream {
    buff: [u8; 1024],
    cursor: usize,
    max_cursor: usize,
    finished: bool,
}

impl View for AsyncReadStream {
    type V = StreamView;

    closed spec fn view(&self) -> StreamView {
        StreamView {
            remaining: self.buff@.subrange(self.cursor as int, self.max_cursor as int),
            finished: self.finished,
        }
    }
}

impl AsyncReadStream {
    #[verifier::type_invariant]
    spec fn inv(self) -> bool {
        &&& self.cursor <= self.max_cursor <= CAPACITY
        &&& self.finished ==> self.cursor == self.max_cursor
    }

    /// The read position in the buffer.
    pub closed spec fn position(&self) -> nat {
        self.cursor as nat
    }

    /// How many bytes of the buffer the last read filled.
    pub closed spec fn filled(&self) -> nat {
        self.max_cursor as nat
    }

    /// The position never passes the filled length, nor that the capacity;
    /// what remains lies between the two; a stream that has ended has
    /// nothing left. Every cursor that this module hands out is bounded.
    pub open spec fn bounded(&self) -> bool {
        &&& self.position() <= self.filled() <= CAPACITY
        &&& self@.remaining.len() == self.filled() - self.position()
        &&& self@.finished ==> self@.remaining.len() == 0
    }

    /// A cursor with nothing read yet.
    pub fn new() -> (r: AsyncReadStream)
        ensures
            r@.remaining.len() == 0,
            !r@.finished,
            r.position() == 0,
            r.filled() == 0,
            r.bounded(),
    {
        AsyncReadStream { buff: [0u8; 1024], cursor: 0, max_cursor: 0, finished: false }
    }

    /// Whether the cursor needs a read before it can go on.
    pub fn starved(&self) -> (r: bool)
        ensures
            r == self@.starved(),
            self.bounded(),
    {
        proof {
            use_type_invariant(self);
        }
        !self.finished && self.cursor >= self.max_cursor
    }

    /// Hands out the next byte and moves past it. After the end of the
    /// stream the answer is always [`Fetch::End`]; with the buffer used up it
    /// is [`Fetch::Starved`] until [`AsyncReadStream::refill`] is called.
    pub fn next(&mut self) -> (r: Fetch)
        ensures
            (r, final(self)@) == old(self)@.next(),
            r is Byte ==> final(self).position() == old(self).position() + 1,
            !(r is Byte) ==> final(self).position() == old(self).position(),
            final(self).filled() == old(self).filled(),
            final(self).bounded(),
    {
        proof {
            use_type_invariant(&*self);
        }
        if self.cursor >= self.max_cursor {
            return if self.finished {
                Fetch::End
            } else {
                Fetch::Starved
            };
        }
        let item = self.buff[self.cursor];
        self.cursor += 1;
        assert(final(self)@.remaining =~= old(self)@.remaining.skip(1));
        Fetch::Byte(item)
    }

    /// Takes the outcome of one read from the connection: the bytes that it
    /// brought, or `None` if it failed. A read that failed or brought nothing
    /// ends the stream; any other fills the buffer anew. Returns whether the
    /// outcome was taken: it is not, and nothing changes, while bytes are
    /// left in the buffer, after the end of the stream, and where the read
    /// brought more than the buffer holds.
    pub fn refill(&mut self, read: Option<&[u8]>) -> (taken: bool)
        ensures
            taken == old(self)@.accepts(outcome_view(read)),
            final(self)@ == old(self)@.refill(outcome_view(read)),
            taken && !final(self)@.finished ==> final(self).position() == 0,
            !taken || final(self)@.finished ==> final(self).position() == old(self).position()
                && final(self).filled() == old(self).filled(),
            final(self).bounded(),
    {
        proof {
            use_type_invariant(&*self);
        }
        let n = match read {
            Some(data) => data.len(),
            None => 0,
        };
        if self.finished || self.cursor < self.max_cursor || n > CAPACITY {
            return false;
        }
        if n == 0 {
            self.finished = true;
            assert(final(self)@.remaining =~= Seq::empty());
            return true;
        }
        let data = read.unwrap();
        let mut buff = [0u8; 1024];
        let mut i: usize = 0;
        while i < n
            invariant
                i <= n,
                n == data@.len(),
                n <= CAPACITY,
                buff@.subrange(0, i as int) =~= data@.subrange(0, i as int),
            decreases n - i,
        {
            buff[i] = data[i];
            i += 1;
        }
        *self = AsyncReadStream { buff, cursor: 0, max_cursor: n, finished: false };
        assert(final(self)@.remaining =~= data@);
        true
    }
}

} // verus!
