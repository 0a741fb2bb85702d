//! What holds of every reader, whatever it has read and whatever it is
//! asked: the laws that callers may rely on, each proved from the
//! definitions of the grammar and of the reader.

use crate::cursor::{StreamView, CAPACITY};
use crate::grammar::{
    at_end, consume, delimiter, fail, finish_line, finish_token, fresh_line, initial, method_of,
    next_field, ordered, run, settled, version_of, without_cr, Field, HttpMethod, HttpVersion,
    LineView, ParseError, Poll, RequestView, COLON, CR, LF, SP,
};
use crate::reader::{
    drive, ended, fed, header_answer, lookup_outcome, lookup_state, method_outcome, rank,
    reached, resource_outcome, version_outcome, Goal, ReaderView,
};
use vstd::prelude::*;
use vstd::utf8::{decode_utf8, valid_utf8};

verus! {

/// The reader `v` with the bytes `more` added to those it has in store.
pub open spec fn extended(v: ReaderView, more: Seq<u8>) -> ReaderView {
    ReaderView { stream: StreamView { remaining: v.stream.remaining + more, ..v.stream }, ..v }
}

/// The reader `v` after the end of the stream has been reported to it.
pub open spec fn closed(v: ReaderView) -> ReaderView {
    ReaderView { stream: StreamView { finished: true, ..v.stream }, ..v }
}

/// What reading may do to a request: fields, failure and the end of the
/// header section are set and never taken back nor changed, and every
/// header in the store stays there with its value.
pub open spec fn grown(before: RequestView, after: RequestView) -> bool {
    &&& before.method is Some ==> after.method == before.method
    &&& before.resource is Some ==> after.resource == before.resource
    &&& before.version is Some ==> after.version == before.version
    &&& before.failure is Some ==> after.failure == before.failure
    &&& before.headers_finished ==> after.headers_finished
    &&& forall|name: Seq<char>| #[trigger]
        before.headers.contains_key(name) ==> after.headers.contains_key(name)
            && after.headers[name] == before.headers[name]
}

/// A reader stops only where its goal is reached, where the request is
/// settled, or where it needs a read from the connection.
pub proof fn lemma_drive_stops(v: ReaderView, goal: Goal)
    ensures
        ({
            let t = drive(v, goal);
            reached(t.request, goal) || settled(t.request) || t.stream.starved()
        }),
    decreases v.stream.remaining.len(), rank(v.request),
{
    if reached(v.request, goal) || settled(v.request) {
    } else if v.stream.remaining.len() > 0 {
        lemma_drive_stops(fed(v), goal);
    } else if v.stream.finished {
        lemma_drive_stops(ended(v), goal);
    }
}

/// Asking again changes nothing: a reader that has read towards a goal is
/// left as it is when it is asked for the same goal once more, so it takes
/// no further byte from the stream.
pub proof fn lemma_drive_idempotent(v: ReaderView, goal: Goal)
    ensures
        drive(drive(v, goal), goal) == drive(v, goal),
    decreases v.stream.remaining.len(), rank(v.request),
{
    if reached(v.request, goal) || settled(v.request) {
    } else if v.stream.remaining.len() > 0 {
        lemma_drive_idempotent(fed(v), goal);
    } else if v.stream.finished {
        lemma_drive_idempotent(ended(v), goal);
    }
}

/// Two goals are read for along one path: of the two places where a reader
/// stops for them, one lies on the way to the other.
pub proof fn lemma_one_path(v: ReaderView, one: Goal, other: Goal)
    ensures
        drive(drive(v, one), other) == drive(v, other) || drive(drive(v, other), one) == drive(
            v,
            one,
        ),
    decreases v.stream.remaining.len(), rank(v.request),
{
    if reached(v.request, one) || reached(v.request, other) || settled(v.request) {
    } else if v.stream.remaining.len() > 0 {
        lemma_one_path(fed(v), one, other);
    } else if v.stream.finished {
        lemma_one_path(ended(v), one, other);
    }
}

/// The fields may be asked for in any order. What a reader answers for a
/// field or for a header, that it answers whatever it was asked for before:
/// an earlier question may make the reader read further, but it changes no
/// answer.
pub proof fn lemma_answers_in_any_order(v: ReaderView, before: Goal, name: Seq<char>)
    ensures
        method_outcome(drive(drive(v, before), Goal::Method).request) == method_outcome(
            drive(v, Goal::Method).request,
        ),
        resource_outcome(drive(drive(v, before), Goal::Resource).request) == resource_outcome(
            drive(v, Goal::Resource).request,
        ),
        version_outcome(drive(drive(v, before), Goal::Version).request) == version_outcome(
            drive(v, Goal::Version).request,
        ),
        header_answer(drive(drive(v, before), Goal::Header(name)).request, name) == header_answer(
            drive(v, Goal::Header(name)).request,
            name,
        ),
{
    lemma_answer_after(v, before, Goal::Method);
    lemma_answer_after(v, before, Goal::Resource);
    lemma_answer_after(v, before, Goal::Version);
    lemma_answer_after(v, before, Goal::Header(name));
}

/// Where a reader has stopped for the goal `asked`, reading on for another
/// goal and asking again leaves what answers `asked` as it was.
proof fn lemma_answer_after(v: ReaderView, before: Goal, asked: Goal)
    ensures
        ({
            let direct = drive(v, asked).request;
            let late = drive(drive(v, before), asked).request;
            if reached(direct, asked) {
                reached(late, asked) && match asked {
                    Goal::Method => late.method == direct.method,
                    Goal::Resource => late.resource == direct.resource,
                    Goal::Version => late.version == direct.version,
                    Goal::Header(name) => late.headers[name] == direct.headers[name],
                    Goal::AllHeaders => true,
                }
            } else {
                late == direct
            }
        }),
{
    let s = drive(v, asked);
    let t = drive(v, before);
    lemma_one_path(v, before, asked);
    if drive(t, asked) != s {
        // The reader stopped for `asked` on its way to `before`.
        assert(drive(s, before) == t);
        lemma_drive_stops(v, asked);
        if reached(s.request, asked) {
            lemma_drive_grows(s, before);
            lemma_drive_grows(t, asked);
        } else {
            assert(t == s);
            lemma_drive_idempotent(v, asked);
        }
    }
}

/// The bytes of a request may come in any number of reads. Where more bytes
/// come after a reader has read towards a goal, it ends where it would have
/// ended had all the bytes been in store from the start.
pub proof fn lemma_drive_chunks(v: ReaderView, goal: Goal, more: Seq<u8>)
    requires
        !v.stream.finished,
    ensures
        drive(extended(drive(v, goal), more), goal) == drive(extended(v, more), goal),
    decreases v.stream.remaining.len(),
{
    let w = extended(v, more);
    if reached(v.request, goal) || settled(v.request) {
    } else if v.stream.remaining.len() > 0 {
        let next = fed(v);
        lemma_drive_chunks(next, goal, more);
        assert(w.stream.remaining.skip(1) =~= next.stream.remaining + more);
        assert(w.stream.remaining[0] == v.stream.remaining[0]);
        assert(drive(w, goal) == drive(extended(next, more), goal));
    } else {
        assert(drive(v, goal) == v);
    }
}

/// The end of the stream may be reported at any time. Where it is reported
/// after a reader has read towards a goal, the reader ends where it would
/// have ended had the end been known from the start.
pub proof fn lemma_drive_closed(v: ReaderView, goal: Goal)
    requires
        !v.stream.finished,
    ensures
        drive(closed(drive(v, goal)), goal) == drive(closed(v), goal),
    decreases v.stream.remaining.len(),
{
    if reached(v.request, goal) || settled(v.request) {
    } else if v.stream.remaining.len() > 0 {
        let next = fed(v);
        lemma_drive_closed(next, goal);
        assert(drive(closed(v), goal) == drive(closed(next), goal));
    } else {
        assert(drive(v, goal) == v);
    }
}

/// The reader `v` after a read with the outcome `read` has been handed to
/// it.
pub open spec fn refilled(v: ReaderView, read: Option<Seq<u8>>) -> ReaderView {
    ReaderView { stream: v.stream.refill(read), ..v }
}

/// A request reads the same however the connection delivers it. A reader
/// that is asked, starves, is handed the next block and is asked again ends
/// where a reader would that had the block in store from the start; and
/// one that is handed the end of the stream, where a reader would that
/// knew of the end from the start.
pub proof fn lemma_reads_of_any_size(v: ReaderView, goal: Goal, read: Option<Seq<u8>>)
    requires
        !v.stream.finished,
        drive(v, goal).stream.accepts(read),
    ensures
        drive(refilled(drive(v, goal), read), goal) == match read {
            Some(data) if data.len() > 0 => drive(extended(v, data), goal),
            _ => drive(closed(v), goal),
        },
{
    let t = drive(v, goal);
    match read {
        Some(data) if data.len() > 0 => {
            lemma_drive_chunks(v, goal, data);
            assert(t.stream.remaining + data =~= data);
            assert(refilled(t, read) == extended(t, data));
        },
        _ => {
            lemma_drive_closed(v, goal);
            assert(t.stream.remaining =~= Seq::empty());
            assert(refilled(t, read) == closed(t));
        },
    }
}

/// The bytes of the blocks, one block after the other.
pub open spec fn joined(blocks: Seq<Seq<u8>>) -> Seq<u8>
    decreases blocks.len(),
{
    if blocks.len() == 0 {
        Seq::empty()
    } else {
        blocks[0] + joined(blocks.skip(1))
    }
}

/// The reader after a handler has asked it for the goal with the blocks
/// `blocks` still to come from the connection: the reader is asked and, as
/// long as it starves and a block is left, handed the next block and asked
/// again.
pub open spec fn served(v: ReaderView, goal: Goal, blocks: Seq<Seq<u8>>) -> ReaderView
    decreases blocks.len(),
{
    let t = drive(v, goal);
    if blocks.len() == 0 || !t.stream.starved() {
        t
    } else {
        served(refilled(t, Some(blocks[0])), goal, blocks.skip(1))
    }
}

/// A request reads the same in blocks of any sizes. However the bytes of a
/// request are cut into blocks, a reader that is handed the blocks one by
/// one as it starves comes to the same request, and so to the same answer,
/// as a reader that has all the bytes in store from the start.
pub proof fn lemma_blocks_of_any_size(v: ReaderView, goal: Goal, blocks: Seq<Seq<u8>>)
    requires
        !v.stream.finished,
        forall|i: int| 0 <= i < blocks.len() ==> 0 < (#[trigger] blocks[i]).len() <= CAPACITY,
    ensures
        served(v, goal, blocks).request == drive(extended(v, joined(blocks)), goal).request,
    decreases blocks.len(),
{
    let t = drive(v, goal);
    let all = joined(blocks);
    lemma_drive_chunks(v, goal, all);
    lemma_drive_stops(v, goal);
    lemma_drive_grows(v, goal);
    if blocks.len() == 0 {
        assert(v.stream.remaining + all =~= v.stream.remaining);
        assert(extended(v, all) == v);
    } else if !t.stream.starved() {
        assert(reached(t.request, goal) || settled(t.request));
        assert(drive(extended(t, all), goal) == extended(t, all));
    } else {
        let first = blocks[0];
        let rest = blocks.skip(1);
        let next = refilled(t, Some(first));
        assert(t.stream.remaining + first =~= first);
        assert(next == extended(t, first));
        assert forall|i: int| 0 <= i < rest.len() implies 0 < (#[trigger] rest[i]).len()
            <= CAPACITY by {
            assert(rest[i] == blocks[i + 1]);
        }
        lemma_blocks_of_any_size(next, goal, rest);
        assert(next.stream.remaining + joined(rest) =~= t.stream.remaining + all);
        assert(extended(next, joined(rest)) == extended(t, all));
    }
}

/// A byte keeps the order of the fields, and takes nothing back.
pub proof fn lemma_consume_grows(p: RequestView, b: u8)
    ensures
        grown(p, consume(p, b)),
        ordered(p) ==> ordered(consume(p, b)),
{
}

/// The end of the stream keeps the order of the fields, and takes nothing
/// back.
pub proof fn lemma_at_end_grows(p: RequestView)
    ensures
        grown(p, at_end(p)),
        ordered(p) ==> ordered(at_end(p)),
{
}

/// Reading only moves forward. What a reader is left with in store is the
/// end of what it had; whether the stream has ended is not for it to
/// change; of the request nothing is taken back; and the order of the
/// fields is kept: no field is present before those that precede it.
pub proof fn lemma_drive_grows(v: ReaderView, goal: Goal)
    ensures
        ({
            let t = drive(v, goal);
            &&& t.stream.finished == v.stream.finished
            &&& t.stream.remaining.len() <= v.stream.remaining.len()
            &&& t.stream.remaining == v.stream.remaining.skip(
                v.stream.remaining.len() - t.stream.remaining.len(),
            )
            &&& grown(v.request, t.request)
            &&& ordered(v.request) ==> ordered(t.request)
        }),
    decreases v.stream.remaining.len(), rank(v.request),
{
    if reached(v.request, goal) || settled(v.request) {
        assert(v.stream.remaining.skip(0) =~= v.stream.remaining);
    } else if v.stream.remaining.len() > 0 {
        let next = fed(v);
        lemma_consume_grows(v.request, v.stream.remaining[0]);
        lemma_drive_grows(next, goal);
        let t = drive(v, goal);
        let k = next.stream.remaining.len() - t.stream.remaining.len();
        assert(v.stream.remaining.skip(1).skip(k) =~= v.stream.remaining.skip(k + 1));
    } else if v.stream.finished {
        lemma_at_end_grows(v.request);
        lemma_drive_grows(ended(v), goal);
        assert(v.stream.remaining.skip(0) =~= v.stream.remaining);
    } else {
        assert(v.stream.remaining.skip(0) =~= v.stream.remaining);
    }
}

/// An answer is final. Once a reader can give a value for a field or a
/// header, or has failed, or knows a header to be missing, reading on for
/// whatever goal leaves that answer as it is. Only `Pending` ever gives
/// way to another answer.
pub proof fn lemma_answers_are_final(v: ReaderView, goal: Goal, name: Seq<char>)
    ensures
        ({
            let before = v.request;
            let after = drive(v, goal).request;
            &&& !(method_outcome(before) matches Ok(Poll::Pending)) ==> method_outcome(after)
                == method_outcome(before)
            &&& !(resource_outcome(before) matches Ok(Poll::Pending)) ==> resource_outcome(after)
                == resource_outcome(before)
            &&& !(version_outcome(before) matches Ok(Poll::Pending)) ==> version_outcome(after)
                == version_outcome(before)
            &&& !(header_answer(before, name) matches Ok(Poll::Pending)) ==> header_answer(
                after,
                name,
            ) == header_answer(before, name)
        }),
{
    lemma_drive_grows(v, goal);
}

/// A request of which nothing has been read has its fields in order.
pub proof fn lemma_initial_ordered()
    ensures
        ordered(initial()),
{
}

/// An answer of `Pending` means what it says: the reader has used up the
/// bytes it had, the stream has not ended, and a read from the connection is
/// the way to go on.
pub proof fn lemma_pending_is_starved(v: ReaderView, name: Seq<char>, get_all: bool)
    requires
        ordered(v.request),
    ensures
        method_outcome(drive(v, Goal::Method).request) matches Ok(Poll::Pending) ==> drive(
            v,
            Goal::Method,
        ).stream.starved(),
        resource_outcome(drive(v, Goal::Resource).request) matches Ok(Poll::Pending) ==> drive(
            v,
            Goal::Resource,
        ).stream.starved(),
        version_outcome(drive(v, Goal::Version).request) matches Ok(Poll::Pending) ==> drive(
            v,
            Goal::Version,
        ).stream.starved(),
        lookup_outcome(
            v.request,
            lookup_state(v, name, get_all).request,
            name,
            get_all,
        ) matches Ok(Poll::Pending) ==> lookup_state(v, name, get_all).stream.starved(),
{
    lemma_drive_stops(v, Goal::Method);
    lemma_drive_stops(v, Goal::Resource);
    lemma_drive_stops(v, Goal::Version);
    lemma_drive_stops(v, Goal::Header(name));
    lemma_drive_stops(v, Goal::AllHeaders);
    lemma_drive_grows(v, Goal::Method);
    lemma_drive_grows(v, Goal::Resource);
    lemma_drive_grows(v, Goal::Version);
}


/// Whether the goal `earlier` lies before the goal `later` in a request: the
/// method before everything else, the resource before the version and the
/// headers, the version before the headers.
pub open spec fn precedes(earlier: Goal, later: Goal) -> bool {
    match earlier {
        Goal::Method => !(later is Method),
        Goal::Resource => later is Version || later is Header || later is AllHeaders,
        Goal::Version => later is Header || later is AllHeaders,
        _ => false,
    }
}

/// What is kept is answered without reading: a reader whose request
/// answers the goal is left as it is, and so is its stream.
pub proof fn lemma_kept_is_not_read_again(v: ReaderView, goal: Goal)
    requires
        reached(v.request, goal),
    ensures
        drive(v, goal) == v,
{
}

/// A field is read after those that precede it. Asking for a later field
/// reads the earlier ones on the way: the reader ends where it would have
/// ended had the earlier field been asked for first.
pub proof fn lemma_earlier_fields_first(v: ReaderView, earlier: Goal, later: Goal)
    requires
        ordered(v.request),
        precedes(earlier, later),
    ensures
        drive(drive(v, earlier), later) == drive(v, later),
        reached(drive(v, later).request, later) ==> reached(drive(v, later).request, earlier),
    decreases v.stream.remaining.len(), rank(v.request),
{
    lemma_drive_grows(v, later);
    if reached(v.request, earlier) || settled(v.request) {
    } else if v.stream.remaining.len() > 0 {
        lemma_consume_grows(v.request, v.stream.remaining[0]);
        lemma_earlier_fields_first(fed(v), earlier, later);
    } else if v.stream.finished {
        lemma_at_end_grows(v.request);
        lemma_earlier_fields_first(ended(v), earlier, later);
    }
}

/// The goal that asks for a token of the request line.
pub open spec fn goal_of(field: Field) -> Goal {
    match field {
        Field::Method => Goal::Method,
        Field::Resource => Goal::Resource,
        Field::Version => Goal::Version,
    }
}

/// Whether none of the first `k` bytes of `window` is a NUL or ends a token
/// of the kind `field`.
pub open spec fn plain(window: Seq<u8>, k: int, field: Field) -> bool {
    forall|i: int| 0 <= i < k ==> window[i] != 0 && window[i] != delimiter(field)
}

/// The request `p` with the bytes `more` added to the token being read.
pub open spec fn gathering(p: RequestView, more: Seq<u8>) -> RequestView {
    RequestView { pending: p.pending + more, ..p }
}

/// A token is the bytes up to its delimiter. Where the bytes in store hold
/// the delimiter of the token that is read next, a reader asked for that
/// token takes the bytes before the delimiter as the token, together with
/// what it had gathered before, takes the delimiter, and leaves everything
/// after it in store. A NUL before the delimiter is taken too, and fails.
pub proof fn lemma_token_ends_at_delimiter(v: ReaderView, field: Field, k: int)
    requires
        !settled(v.request),
        next_field(v.request) == Some(field),
        0 <= k < v.stream.remaining.len(),
        plain(v.stream.remaining, k, field),
        v.stream.remaining[k] == delimiter(field) || v.stream.remaining[k] == 0,
    ensures
        drive(v, goal_of(field)).stream == (StreamView {
            remaining: v.stream.remaining.skip(k + 1),
            ..v.stream
        }),
        drive(v, goal_of(field)).request == if v.stream.remaining[k] == 0 {
            fail(gathering(v.request, v.stream.remaining.take(k)), ParseError::NulByte)
        } else {
            finish_token(gathering(v.request, v.stream.remaining.take(k)), field)
        },
    decreases k,
{
    let window = v.stream.remaining;
    let next = fed(v);
    if k == 0 {
        assert(window.take(0) =~= Seq::empty());
        assert(v.request.pending + window.take(0) =~= v.request.pending);
        assert(gathering(v.request, window.take(0)) == v.request);
    } else {
        assert(window[0] != 0 && window[0] != delimiter(field));
        assert(plain(next.stream.remaining, k - 1, field)) by {
            assert forall|i: int| 0 <= i < k - 1 implies next.stream.remaining[i] != 0
                && next.stream.remaining[i] != delimiter(field) by {
                assert(next.stream.remaining[i] == window[i + 1]);
            }
        }
        lemma_token_ends_at_delimiter(next, field, k - 1);
        assert(window.skip(1).skip(k - 1 + 1) =~= window.skip(k + 1));
        assert(v.request.pending.push(window[0]) + window.skip(1).take(k - 1)
            =~= v.request.pending + window.take(k));
        assert(gathering(next.request, next.stream.remaining.take(k - 1)) == gathering(
            v.request,
            window.take(k),
        ));
    }
}

/// A token that the bytes in store do not end is gathered and waited for;
/// at the end of the stream it is complete as it stands.
pub proof fn lemma_token_without_delimiter(v: ReaderView, field: Field)
    requires
        !settled(v.request),
        next_field(v.request) == Some(field),
        plain(v.stream.remaining, v.stream.remaining.len() as int, field),
    ensures
        !v.stream.finished ==> drive(v, goal_of(field)) == (ReaderView {
            stream: StreamView { remaining: Seq::empty(), ..v.stream },
            request: gathering(v.request, v.stream.remaining),
        }),
        v.stream.finished ==> drive(v, goal_of(field)) == (ReaderView {
            stream: StreamView { remaining: Seq::empty(), ..v.stream },
            request: finish_token(gathering(v.request, v.stream.remaining), field),
        }),
    decreases v.stream.remaining.len(),
{
    let window = v.stream.remaining;
    if window.len() == 0 {
        assert(v.request.pending + window =~= v.request.pending);
        assert(gathering(v.request, window) == v.request);
        assert(v.stream.remaining =~= Seq::empty());
        if v.stream.finished {
            let w = ended(v);
            assert(w.request == finish_token(v.request, field));
            assert(reached(w.request, goal_of(field)) || settled(w.request));
            assert(drive(w, goal_of(field)) == w);
        }
    } else {
        let next = fed(v);
        assert(window[0] != 0 && window[0] != delimiter(field));
        assert(plain(next.stream.remaining, next.stream.remaining.len() as int, field)) by {
            assert forall|i: int| 0 <= i < next.stream.remaining.len() implies next.stream.remaining[i]
                != 0 && next.stream.remaining[i] != delimiter(field) by {
                assert(next.stream.remaining[i] == window[i + 1]);
            }
        }
        lemma_token_without_delimiter(next, field);
        assert(v.request.pending.push(window[0]) + window.skip(1) =~= v.request.pending + window);
        assert(gathering(next.request, next.stream.remaining) == gathering(v.request, window));
    }
}


/// Bytes taken in two parts do what they do taken at once.
pub proof fn lemma_run_in_parts(p: RequestView, first: Seq<u8>, second: Seq<u8>)
    ensures
        run(p, first + second) == run(run(p, first), second),
    decreases first.len(),
{
    if first.len() == 0 {
        assert(first + second =~= second);
    } else {
        assert((first + second).skip(1) =~= first.skip(1) + second);
        lemma_run_in_parts(consume(p, first[0]), first.skip(1), second);
    }
}

/// One byte does what the grammar says of it.
pub proof fn lemma_run_one(p: RequestView, b: u8)
    ensures
        run(p, seq![b]) == consume(p, b),
{
    reveal_with_fuel(run, 2);
    assert(seq![b].skip(1) =~= Seq::<u8>::empty());
}

/// A settled state takes no bytes: a failure is final, and so is the end of
/// the header section.
pub proof fn lemma_run_settled(p: RequestView, bytes: Seq<u8>)
    requires
        settled(p),
    ensures
        run(p, bytes) == p,
    decreases bytes.len(),
{
    if bytes.len() > 0 {
        lemma_run_settled(p, bytes.skip(1));
    }
}

/// What a reader does to the request is what the grammar says of the bytes
/// it took: the request it leaves is the one it had, run over as many bytes
/// from the front of its store as are gone from it.
pub proof fn lemma_drive_runs(v: ReaderView, goal: Goal)
    requires
        !v.stream.finished,
    ensures
        ({
            let t = drive(v, goal);
            let taken = v.stream.remaining.len() - t.stream.remaining.len();
            &&& 0 <= taken
            &&& t.request == run(v.request, v.stream.remaining.take(taken))
        }),
    decreases v.stream.remaining.len(),
{
    let window = v.stream.remaining;
    if reached(v.request, goal) || settled(v.request) {
        assert(window.take(0) =~= Seq::empty());
    } else if window.len() > 0 {
        let next = fed(v);
        lemma_drive_runs(next, goal);
        let t = drive(v, goal);
        let taken = window.len() - t.stream.remaining.len();
        assert(window.take(taken).skip(1) =~= window.skip(1).take(taken - 1));
    } else {
        assert(window.take(0) =~= Seq::empty());
    }
}

/// The bytes of a token join the token.
proof fn lemma_token_gathers(p: RequestView, field: Field, bytes: Seq<u8>)
    requires
        !settled(p),
        next_field(p) == Some(field),
        plain(bytes, bytes.len() as int, field),
    ensures
        run(p, bytes) == gathering(p, bytes),
    decreases bytes.len(),
{
    if bytes.len() == 0 {
        assert(p.pending + bytes =~= p.pending);
    } else {
        let q = consume(p, bytes[0]);
        assert(plain(bytes.skip(1), bytes.skip(1).len() as int, field)) by {
            assert forall|i: int| 0 <= i < bytes.skip(1).len() implies bytes.skip(1)[i] != 0
                && bytes.skip(1)[i] != delimiter(field) by {
                assert(bytes.skip(1)[i] == bytes[i + 1]);
            }
        }
        lemma_token_gathers(q, field, bytes.skip(1));
        assert(p.pending.push(bytes[0]) + bytes.skip(1) =~= p.pending + bytes);
    }
}

/// A token and its delimiter complete the field.
proof fn lemma_token_completes(p: RequestView, field: Field, bytes: Seq<u8>)
    requires
        !settled(p),
        next_field(p) == Some(field),
        p.pending.len() == 0,
        plain(bytes, bytes.len() as int, field),
    ensures
        run(p, bytes + seq![delimiter(field)]) == finish_token(
            RequestView { pending: bytes, ..p },
            field,
        ),
{
    lemma_token_gathers(p, field, bytes);
    assert(p.pending + bytes =~= bytes);
    lemma_run_one(gathering(p, bytes), delimiter(field));
    lemma_run_in_parts(p, bytes, seq![delimiter(field)]);
}

/// A request line is a method, a space, a resource, a space, a version and
/// a line feed, with or without a carriage return before the line feed.
/// Read from the start of a request, a line with a known method, a resource
/// in UTF-8 and a known version sets the three fields and leaves everything
/// else as it was.
pub proof fn lemma_request_line(
    method: Seq<u8>,
    resource: Seq<u8>,
    version: Seq<u8>,
    m: HttpMethod,
    v: HttpVersion,
)
    requires
        plain(method, method.len() as int, Field::Method),
        plain(resource, resource.len() as int, Field::Resource),
        plain(version, version.len() as int, Field::Version),
        method_of(method) == Some(m),
        valid_utf8(resource),
        version_of(without_cr(version)) == Some(v),
    ensures
        run(initial(), method + seq![SP] + resource + seq![SP] + version + seq![LF]) == (
        RequestView {
            method: Some(m),
            resource: Some(decode_utf8(resource)),
            version: Some(v),
            ..initial()
        }),
{
    let p0 = initial();
    lemma_token_completes(p0, Field::Method, method);
    let p1 = run(p0, method + seq![SP]);
    lemma_token_completes(p1, Field::Resource, resource);
    let p2 = run(p1, resource + seq![SP]);
    lemma_token_completes(p2, Field::Version, version);
    lemma_run_in_parts(p0, method + seq![SP], resource + seq![SP]);
    lemma_run_in_parts(p0, method + seq![SP] + (resource + seq![SP]), version + seq![LF]);
    assert(method + seq![SP] + (resource + seq![SP]) + (version + seq![LF]) =~= method + seq![SP]
        + resource + seq![SP] + version + seq![LF]);
}

/// Whether the bytes can stand in a header's name: none is a NUL, a line
/// end or a colon.
pub open spec fn name_bytes(bytes: Seq<u8>) -> bool {
    forall|i: int|
        0 <= i < bytes.len() ==> bytes[i] != 0 && bytes[i] != CR && bytes[i] != LF && bytes[i]
            != COLON
}

/// Whether the bytes can stand in a header's value: none is a NUL or a line
/// end.
pub open spec fn value_bytes(bytes: Seq<u8>) -> bool {
    forall|i: int| 0 <= i < bytes.len() ==> bytes[i] != 0 && bytes[i] != CR && bytes[i] != LF
}

/// Whether the state stands in the header section, at the start of a line.
pub open spec fn at_line_start(p: RequestView) -> bool {
    &&& next_field(p) is None
    &&& !settled(p)
    &&& !p.blank
    &&& p.line == fresh_line()
}

/// The state `p` with a name and a value gathered for the header line
/// being read.
pub open spec fn with_line(p: RequestView, name: Seq<u8>, value: Seq<u8>) -> RequestView {
    RequestView { line: LineView { name, value, is_name: false, is_start: false }, ..p }
}

/// The bytes of a name join the name.
proof fn lemma_name_gathers(p: RequestView, bytes: Seq<u8>)
    requires
        next_field(p) is None,
        !settled(p),
        !p.blank,
        p.line.is_name,
        name_bytes(bytes),
    ensures
        run(p, bytes) == (RequestView {
            line: LineView {
                name: p.line.name + bytes,
                is_start: p.line.is_start && bytes.len() == 0,
                ..p.line
            },
            ..p
        }),
    decreases bytes.len(),
{
    if bytes.len() == 0 {
        assert(p.line.name + bytes =~= p.line.name);
    } else {
        let q = consume(p, bytes[0]);
        assert(name_bytes(bytes.skip(1))) by {
            assert forall|i: int| 0 <= i < bytes.skip(1).len() implies bytes.skip(1)[i] != 0
                && bytes.skip(1)[i] != CR && bytes.skip(1)[i] != LF && bytes.skip(1)[i]
                != COLON by {
                assert(bytes.skip(1)[i] == bytes[i + 1]);
            }
        }
        lemma_name_gathers(q, bytes.skip(1));
        assert(p.line.name.push(bytes[0]) + bytes.skip(1) =~= p.line.name + bytes);
    }
}

/// The bytes of a value join the value.
proof fn lemma_value_gathers(p: RequestView, bytes: Seq<u8>)
    requires
        next_field(p) is None,
        !settled(p),
        !p.blank,
        !p.line.is_name,
        !p.line.is_start,
        value_bytes(bytes),
    ensures
        run(p, bytes) == (RequestView {
            line: LineView { value: p.line.value + bytes, ..p.line },
            ..p
        }),
    decreases bytes.len(),
{
    if bytes.len() == 0 {
        assert(p.line.value + bytes =~= p.line.value);
    } else {
        let q = consume(p, bytes[0]);
        assert(value_bytes(bytes.skip(1))) by {
            assert forall|i: int| 0 <= i < bytes.skip(1).len() implies bytes.skip(1)[i] != 0
                && bytes.skip(1)[i] != CR && bytes.skip(1)[i] != LF by {
                assert(bytes.skip(1)[i] == bytes[i + 1]);
            }
        }
        lemma_value_gathers(q, bytes.skip(1));
        assert(p.line.value.push(bytes[0]) + bytes.skip(1) =~= p.line.value + bytes);
    }
}

/// A header line is a name, a colon, a value and a line feed, with or
/// without a carriage return before the line feed. Read from the start of a
/// line, it stores the value under the name, or fails where one of the two
/// is not UTF-8. The value is kept as written: colons and blanks in it stay.
pub proof fn lemma_header_line(p: RequestView, name: Seq<u8>, value: Seq<u8>)
    requires
        at_line_start(p),
        name_bytes(name),
        value_bytes(value),
    ensures
        run(p, name + seq![COLON] + value + seq![CR, LF]) == finish_line(
            with_line(p, name, value),
        ),
        run(p, name + seq![COLON] + value + seq![LF]) == finish_line(with_line(p, name, value)),
{
    let named = run(p, name);
    lemma_name_gathers(p, name);
    assert(Seq::<u8>::empty() + name =~= name);
    lemma_run_one(named, COLON);
    let colon = run(named, seq![COLON]);
    assert(colon == with_line(p, name, Seq::empty()));
    lemma_value_gathers(colon, value);
    assert(Seq::<u8>::empty() + value =~= value);
    let valued = run(colon, value);
    assert(valued == with_line(p, name, value));
    lemma_run_one(valued, LF);
    lemma_run_one(valued, CR);
    assert(seq![CR, LF] =~= seq![CR] + seq![LF]);
    lemma_run_in_parts(valued, seq![CR], seq![LF]);
    lemma_run_in_parts(p, name, seq![COLON]);
    lemma_run_in_parts(p, name + seq![COLON], value);
    lemma_run_in_parts(p, name + seq![COLON] + value, seq![LF]);
    lemma_run_in_parts(p, name + seq![COLON] + value, seq![CR, LF]);
}

/// The header section ends at a carriage return that starts a line: after
/// the last header line, or after a blank line.
pub proof fn lemma_blank_line(p: RequestView)
    requires
        at_line_start(p),
    ensures
        run(p, seq![CR]) == (RequestView { headers_finished: true, ..p }),
        run(p, seq![LF, CR]) == (RequestView { blank: true, headers_finished: true, ..p }),
{
    lemma_run_one(p, CR);
    lemma_run_one(p, LF);
    lemma_run_one(consume(p, LF), CR);
    assert(seq![LF, CR] =~= seq![LF] + seq![CR]);
    lemma_run_in_parts(p, seq![LF], seq![CR]);
}

} // verus!
