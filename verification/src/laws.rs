//! What holds of every exchange.
//!
//! The theorems here relate the two ends of a connection: what a client
//! lays out, a server reads back; what a server writes, a client reads
//! back; and a server that reads a stream in pieces does with it what its
//! framing strategy makes of the stream as a whole.

use vstd::prelude::*;
use vstd::utf8::{
    decode_utf8, encode_utf8, encode_utf8_decode_utf8, encode_utf8_valid_utf8, valid_utf8,
};
use crate::client::{reply_of, SendError};
use crate::connection::{
    close, deliver, keep_reading, next, wanted, Closing, ConnActionView, ConnEventView,
    ConnectionView, Phase, CHUNK,
};
use crate::framer::{
    announced, framed_consumed, framed_message, holds_frame, lemma_complete_is_stable,
    line_consumed, line_message, line_payload, FrameError, Framing,
};
use crate::server;
use crate::server::{ServeActionView, ServeError, ServeEvent, ServePhase, ServerView};
use crate::stream::lemma_through_first_is;
use crate::text::{
    lemma_encode_concat, lemma_encode_no_newline, lemma_encode_single, lemma_scalar_newline,
    NEWLINE,
};
use crate::wire::{
    be_prefix, framed_request, lemma_prefix_value, line_request, prefix_limit,
    response_bytes, terminated, SENTINEL,
};

verus! {

/// A line request is the text's bytes and one newline, whether or not the
/// text came with a newline of its own.
pub proof fn line_request_layout(msg: Seq<char>)
    requires
        !msg.contains('\n'),
    ensures
        line_request(msg) == encode_utf8(msg).push(NEWLINE),
        line_request(msg.push('\n')) == line_request(msg),
{
    let with = msg.push('\n');
    if msg.len() > 0 {
        assert(msg.contains(msg.last()));
    }
    assert(terminated(msg) == with);
    assert(terminated(with) == with);
    assert(with =~= msg + seq!['\n']);
    lemma_encode_concat(msg, seq!['\n']);
    lemma_encode_single('\n');
    lemma_scalar_newline('\n');
    assert(encode_utf8(with) =~= encode_utf8(msg).push(NEWLINE));
}

/// A server that reads by lines reads text without a newline back as it
/// was sent, whether or not the sender added a newline of its own, and
/// takes the whole request for it.
pub proof fn line_request_reads_back(msg: Seq<char>)
    requires
        !msg.contains('\n'),
    ensures
        line_message(line_request(msg)) == Ok::<Seq<char>, FrameError>(msg),
        line_message(line_request(msg.push('\n'))) == Ok::<Seq<char>, FrameError>(msg),
        line_consumed(line_request(msg)) == line_request(msg).len(),
        Framing::Line.complete(line_request(msg)),
{
    line_request_layout(msg);
    lemma_encode_no_newline(msg);
    let body = encode_utf8(msg);
    let wire = line_request(msg);
    let n = wire.len() as int;
    assert(wire[n - 1] == NEWLINE);
    assert forall|i: int| 0 <= i < n - 1 implies wire[i] != NEWLINE by {
        assert(body.contains(body[i]));
    }
    lemma_through_first_is(wire, NEWLINE, n);
    assert(line_payload(wire) =~= body);
    encode_utf8_valid_utf8(msg);
    encode_utf8_decode_utf8(msg);
}

/// A server that reads by length reads a payload of fewer than 2^32 bytes
/// back as the text it spells, and takes the whole request for it. A
/// payload that spells no text is refused.
pub proof fn framed_request_reads_back(payload: Seq<u8>)
    requires
        payload.len() < prefix_limit(),
    ensures
        holds_frame(framed_request(payload)),
        framed_consumed(framed_request(payload)) == framed_request(payload).len(),
        valid_utf8(payload) ==> framed_message(framed_request(payload)) == Ok::<
            Seq<char>,
            FrameError,
        >(decode_utf8(payload)),
        !valid_utf8(payload) ==> framed_message(framed_request(payload)) == Err::<
            Seq<char>,
            FrameError,
        >(FrameError::Decode),
{
    let n = payload.len();
    let wire = framed_request(payload);
    lemma_prefix_value(n);
    assert(wire.take(4) =~= be_prefix(n));
    assert(announced(wire) == n);
    assert(wire.subrange(4, 4 + n as int) =~= payload);
}

/// Text whose bytes number fewer than 2^32, sent by length, is read back as
/// it was sent.
pub proof fn framed_text_reads_back(text: Seq<char>)
    requires
        encode_utf8(text).len() < prefix_limit(),
    ensures
        framed_message(framed_request(encode_utf8(text))) == Ok::<Seq<char>, FrameError>(text),
{
    encode_utf8_valid_utf8(text);
    encode_utf8_decode_utf8(text);
    framed_request_reads_back(encode_utf8(text));
}

/// A stream that ends before a length-prefixed request is whole gives no
/// request, however much of it arrived.
pub proof fn truncated_request_gives_none(stream: Seq<u8>)
    requires
        !holds_frame(stream),
    ensures
        framed_message(stream) == Err::<Seq<char>, FrameError>(FrameError::Truncated),
        framed_consumed(stream) == stream.len(),
{
}

/// A cut-off length-prefixed request is a truncated stream: a request
/// short of its last bytes is not whole.
pub proof fn cut_request_is_truncated(payload: Seq<u8>, kept: int)
    requires
        payload.len() < prefix_limit(),
        0 <= kept < framed_request(payload).len(),
    ensures
        !holds_frame(framed_request(payload).take(kept)),
{
    let wire = framed_request(payload);
    let cut = wire.take(kept);
    lemma_prefix_value(payload.len());
    if kept >= 4 {
        assert(cut.take(4) =~= be_prefix(payload.len()));
    }
}

/// The client reads the handler's reply back exactly as the handler gave
/// it.
pub proof fn reply_reads_back<E>(reply: Seq<char>)
    ensures
        reply_of(Ok::<Seq<u8>, E>(response_bytes(Some(reply)))) == Ok::<
            Seq<char>,
            SendError<E>,
        >(reply),
{
    encode_utf8_valid_utf8(reply);
    encode_utf8_decode_utf8(reply);
}

/// The client reads the handler's failure as the sentinel, exactly.
pub proof fn failure_reads_as_sentinel<E>()
    ensures
        reply_of(Ok::<Seq<u8>, E>(response_bytes(None))) == Ok::<Seq<char>, SendError<E>>(
            SENTINEL@,
        ),
{
    encode_utf8_valid_utf8(SENTINEL@);
    encode_utf8_decode_utf8(SENTINEL@);
}

/// A connection that was closed unanswered reads, at the client, as an
/// empty reply.
pub proof fn silence_reads_as_empty<E>()
    ensures
        reply_of(Ok::<Seq<u8>, E>(Seq::empty())) == Ok::<Seq<char>, SendError<E>>(Seq::empty()),
{
    assert(decode_utf8(Seq::<u8>::empty()) =~= Seq::<char>::empty());
}

/// What becomes of a connection that is reading when its peer sends
/// `chunks`, one to a read, and then closes its sending side: the state in
/// which reading ended, and the action that ended it. Chunks that follow
/// the one that made the request whole are never read.
pub open spec fn read_out(pre: ConnectionView, chunks: Seq<Seq<u8>>) -> (
    ConnectionView,
    ConnActionView,
)
    decreases chunks.len(),
{
    if chunks.len() == 0 {
        next(pre, ConnEventView::EndOfStream)
    } else {
        let step = next(pre, ConnEventView::Received(chunks.first()));
        if step.0.phase is Reading {
            read_out(step.0, chunks.drop_first())
        } else {
            step
        }
    }
}

/// However a stream is cut into reads, the connection does with it what
/// its framing strategy makes of the stream as a whole: the request goes to
/// the handler, or the connection is closed unanswered.
pub proof fn reading_in_pieces(pre: ConnectionView, chunks: Seq<Seq<u8>>)
    requires
        pre.phase is Reading,
        !pre.framing.complete(pre.inbound),
    ensures
        read_out(pre, chunks) == deliver(pre.framing, pre.inbound + chunks.flatten()),
    decreases chunks.len(),
{
    let framing = pre.framing;
    if chunks.len() == 0 {
        assert(pre.inbound + chunks.flatten() =~= pre.inbound);
    } else {
        let first = chunks.first();
        let rest = chunks.drop_first();
        let inbound = pre.inbound + first;
        assert(pre.inbound + chunks.flatten() =~= inbound + rest.flatten());
        if framing.complete(inbound) {
            lemma_complete_is_stable(framing, inbound, rest.flatten());
            assert(deliver(framing, inbound).0.phase !is Reading);
        } else {
            reading_in_pieces(keep_reading(framing, inbound).0, rest);
        }
    }
}

/// A connection that is handed a whole line request in one read passes
/// the text to the handler, and writes back the handler's reply, or the
/// sentinel where the handler failed, for the client to read back exactly.
pub proof fn line_exchange<E>(msg: Seq<char>, outcome: Option<Seq<char>>)
    requires
        !msg.contains('\n'),
    ensures
        ({
            let reading = keep_reading(Framing::Line, Seq::empty()).0;
            let handling = next(reading, ConnEventView::Received(line_request(msg)));
            let responding = next(
                handling.0,
                match outcome {
                    Some(reply) => ConnEventView::Replied(reply),
                    None => ConnEventView::Failed,
                },
            );
            &&& handling.1 == ConnActionView::Handle(msg)
            &&& responding.1 == ConnActionView::Write(response_bytes(outcome))
            &&& reply_of(Ok::<Seq<u8>, E>(response_bytes(outcome))) == Ok::<
                Seq<char>,
                SendError<E>,
            >(
                match outcome {
                    Some(reply) => reply,
                    None => SENTINEL@,
                },
            )
        }),
{
    line_request_reads_back(msg);
    assert(Seq::<u8>::empty() + line_request(msg) =~= line_request(msg));
    match outcome {
        Some(reply) => reply_reads_back::<E>(reply),
        None => failure_reads_as_sentinel::<E>(),
    }
}

/// The same of a length-prefixed request whose payload spells text.
pub proof fn framed_exchange<E>(payload: Seq<u8>, outcome: Option<Seq<char>>)
    requires
        payload.len() < prefix_limit(),
        valid_utf8(payload),
    ensures
        ({
            let reading = keep_reading(Framing::LengthPrefixed, Seq::empty()).0;
            let handling = next(reading, ConnEventView::Received(framed_request(payload)));
            let responding = next(
                handling.0,
                match outcome {
                    Some(reply) => ConnEventView::Replied(reply),
                    None => ConnEventView::Failed,
                },
            );
            &&& handling.1 == ConnActionView::Handle(decode_utf8(payload))
            &&& responding.1 == ConnActionView::Write(response_bytes(outcome))
            &&& reply_of(Ok::<Seq<u8>, E>(response_bytes(outcome))) == Ok::<
                Seq<char>,
                SendError<E>,
            >(
                match outcome {
                    Some(reply) => reply,
                    None => SENTINEL@,
                },
            )
        }),
{
    framed_request_reads_back(payload);
    assert(Seq::<u8>::empty() + framed_request(payload) =~= framed_request(payload));
    match outcome {
        Some(reply) => reply_reads_back::<E>(reply),
        None => failure_reads_as_sentinel::<E>(),
    }
}

/// A length-prefixed request that is cut off never reaches the handler and
/// is never answered: however the bytes that did arrive were cut into
/// reads, the connection is closed at the end of the stream with nothing
/// written.
pub proof fn truncated_request_is_dropped(chunks: Seq<Seq<u8>>)
    requires
        !holds_frame(chunks.flatten()),
    ensures
        read_out(keep_reading(Framing::LengthPrefixed, Seq::empty()).0, chunks) == close(
            Framing::LengthPrefixed,
            Closing::Framing(FrameError::Truncated),
        ),
{
    let pre = keep_reading(Framing::LengthPrefixed, Seq::empty()).0;
    reading_in_pieces(pre, chunks);
    assert(pre.inbound + chunks.flatten() =~= chunks.flatten());
}

/// How far along a connection is.
pub open spec fn rank(phase: Phase) -> nat {
    match phase {
        Phase::Accepted => 0,
        Phase::Reading => 1,
        Phase::Handling => 2,
        Phase::Responding => 3,
        Phase::Closed => 4,
    }
}

/// A connection only moves forward, and only reading may take more than
/// one step: nothing is retried, the handler is asked once, one response
/// is written, and a closed connection stays closed. The handler is asked
/// only at the end of reading, and a response is written only on the
/// handler's outcome.
pub proof fn connection_only_advances(pre: ConnectionView, event: ConnEventView)
    ensures
        rank(next(pre, event).0.phase) >= rank(pre.phase),
        next(pre, event).0.phase == pre.phase ==> pre.phase is Reading || pre.phase is Closed,
        next(pre, event).0.framing == pre.framing,
        next(pre, event).1 is Read <==> next(pre, event).0.phase is Reading,
        next(pre, event).1 is Handle <==> next(pre, event).0.phase is Handling,
        next(pre, event).1 is Write <==> next(pre, event).0.phase is Responding,
        next(pre, event).1 is Close <==> next(pre, event).0.phase is Closed,
        next(pre, event).0.phase is Handling ==> pre.phase is Reading,
        next(pre, event).0.phase is Responding ==> pre.phase is Handling,
        next(pre, event).1 == ConnActionView::Close(Closing::Answered) ==> pre.phase
            is Responding,
{
}

/// A connection that reads on asks for at least one byte and at most a
/// chunk, and of a length-prefixed request for no byte past its end.
pub proof fn read_asks_for_what_is_missing(framing: Framing, inbound: Seq<u8>)
    requires
        !framing.complete(inbound),
    ensures
        0 < wanted(framing, inbound) <= CHUNK,
        framing is LengthPrefixed && inbound.len() < 4 ==> inbound.len() + wanted(
            framing,
            inbound,
        ) <= 4,
        framing is LengthPrefixed && inbound.len() >= 4 ==> inbound.len() + wanted(
            framing,
            inbound,
        ) <= 4 + announced(inbound),
{
}

/// The state of a connection after `events`, one after the other.
pub open spec fn run(pre: ConnectionView, events: Seq<ConnEventView>) -> ConnectionView
    decreases events.len(),
{
    if events.len() == 0 {
        pre
    } else {
        run(next(pre, events.first()).0, events.drop_first())
    }
}

/// The states of connections that are served side by side, after `events`,
/// each of which is marked with the index of the connection it happened
/// on. An event marked with no connection's index happens to none.
pub open spec fn run_all(pre: Seq<ConnectionView>, events: Seq<(int, ConnEventView)>) -> Seq<
    ConnectionView,
>
    decreases events.len(),
{
    if events.len() == 0 {
        pre
    } else {
        let (i, event) = events.first();
        let stepped = if 0 <= i < pre.len() {
            pre.update(i, next(pre[i], event).0)
        } else {
            pre
        };
        run_all(stepped, events.drop_first())
    }
}

/// The events among `events` that happened on connection `i`, in order.
pub open spec fn events_on(events: Seq<(int, ConnEventView)>, i: int) -> Seq<ConnEventView>
    decreases events.len(),
{
    if events.len() == 0 {
        Seq::empty()
    } else if events.first().0 == i {
        seq![events.first().1] + events_on(events.drop_first(), i)
    } else {
        events_on(events.drop_first(), i)
    }
}

/// Connections that are served side by side do not mix: however their
/// events interleave, each ends where its own events alone would have
/// taken it. What is asked of a connection's driver at each step follows
/// from that connection's state and event, so no request is answered with
/// another's response.
pub proof fn connections_do_not_mix(
    pre: Seq<ConnectionView>,
    events: Seq<(int, ConnEventView)>,
    i: int,
)
    requires
        0 <= i < pre.len(),
    ensures
        run_all(pre, events).len() == pre.len(),
        run_all(pre, events)[i] == run(pre[i], events_on(events, i)),
    decreases events.len(),
{
    if events.len() > 0 {
        let (k, event) = events.first();
        let stepped = if 0 <= k < pre.len() {
            pre.update(k, next(pre[k], event).0)
        } else {
            pre
        };
        connections_do_not_mix(stepped, events.drop_first(), i);
        if k == i {
            let own = events_on(events, i);
            assert(own.first() == event);
            assert(own.drop_first() =~= events_on(events.drop_first(), i));
        }
    }
}

/// How far along a server is.
pub open spec fn serve_rank(phase: ServePhase) -> nat {
    match phase {
        ServePhase::Idle => 0,
        ServePhase::Probing => 1,
        ServePhase::Clearing => 2,
        ServePhase::Binding => 3,
        ServePhase::Listening => 4,
        ServePhase::Stopped => 5,
    }
}

/// A server started on an endpoint where a stale socket file lies removes
/// that file, binds and accepts, with no step left to anyone else.
pub proof fn stale_file_is_cleared(idle: ServerView)
    requires
        idle.phase is Idle,
    ensures
        ({
            let probing = server::next(idle, ServeEvent::Started);
            let clearing = server::next(probing.0, ServeEvent::Probed { present: true });
            let binding = server::next(clearing.0, ServeEvent::Removed);
            let listening = server::next(binding.0, ServeEvent::Bound);
            &&& probing.1 == ServeActionView::Probe { path: idle.path }
            &&& clearing.1 == ServeActionView::Remove { path: idle.path }
            &&& binding.1 == ServeActionView::Bind { path: idle.path }
            &&& listening.1 == ServeActionView::Accept
            &&& listening.0 == idle.at(ServePhase::Listening)
        }),
{
}

/// A server only moves forward, and only a listening or a stopped server
/// stays where it is: it looks at its path once, removes a file at most
/// once, binds at most once, and once stopped stays stopped. It keeps its
/// endpoint and its strategy throughout.
pub proof fn server_only_advances(pre: ServerView, event: ServeEvent)
    ensures
        serve_rank(server::next(pre, event).0.phase) >= serve_rank(pre.phase),
        server::next(pre, event).0.phase == pre.phase ==> pre.phase is Listening || pre.phase
            is Stopped,
        server::next(pre, event).0.path == pre.path,
        server::next(pre, event).0.framing == pre.framing,
        server::next(pre, event).1 is Probe <==> server::next(pre, event).0.phase is Probing,
        server::next(pre, event).1 is Remove <==> server::next(pre, event).0.phase is Clearing,
        server::next(pre, event).1 is Bind <==> server::next(pre, event).0.phase is Binding,
        server::next(pre, event).1 is Stop <==> server::next(pre, event).0.phase is Stopped,
{
}

/// A server touches no path but its endpoint's, and that only before it
/// listens. It removes a file only where it was told that one is present,
/// and binds only where it was told that none is, or that the one that was
/// is gone.
pub proof fn server_touches_its_endpoint_only(pre: ServerView, event: ServeEvent)
    ensures
        server::next(pre, event).1 matches ServeActionView::Probe { path } ==> path == pre.path
            && pre.phase is Idle,
        server::next(pre, event).1 matches ServeActionView::Remove { path } ==> path == pre.path
            && pre.phase is Probing && event == (ServeEvent::Probed { present: true }),
        server::next(pre, event).1 matches ServeActionView::Bind { path } ==> path == pre.path && (
        event == (ServeEvent::Probed { present: false }) || event == ServeEvent::Removed || event
            == (ServeEvent::RemoveFailed { missing: true })),
{
}

/// A server that listens goes on listening whatever comes of accepting: a
/// failed accept is followed by the next, and each connection accepted is
/// handed on with a fresh state of its own. Nothing stops a listening
/// server but an event it had not asked for.
pub proof fn server_keeps_listening(pre: ServerView, event: ServeEvent)
    requires
        pre.phase is Listening,
    ensures
        event is AcceptFailed ==> server::next(pre, event) == (pre, ServeActionView::Accept),
        event is Accepted ==> server::next(pre, event) == (
            pre,
            ServeActionView::Dispatch(pre.fresh_connection()),
        ),
        !(event is Accepted || event is AcceptFailed) ==> server::next(pre, event) == (
            pre.at(ServePhase::Stopped),
            ServeActionView::Stop(ServeError::OutOfTurn),
        ),
{
}

} // verus!
