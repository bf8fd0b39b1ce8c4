//! One connection, as the server sees it.
//!
//! A connection carries one request and one response. The server reads
//! until the framing strategy has a whole request, hands the request to the
//! handler, writes what the handler answered and closes. `Connection` holds
//! what is decided on that way and does none of the reading, handling or
//! writing itself: whoever drives it performs each `ConnAction` and reports
//! what came of it as the next `ConnEvent`.

use vstd::prelude::*;
use vstd::slice::slice_subrange;
use crate::framer::{announced, holds_frame, FrameError, Framing};
use crate::stream::ByteStream;
use crate::text::NEWLINE;
use crate::wire::{decode_length, encode_response, response_bytes, PREFIX_LEN};

verus! {

/// The most bytes asked for in one read.
pub const CHUNK: usize = 8192;

/// Where a connection stands.
#[derive(Clone, Copy, Debug, PartialEq, Eq, Structural)]
pub enum Phase {
    /// Accepted, nothing read yet.
    Accepted,
    /// Reading the request.
    Reading,
    /// The request is with the handler.
    Handling,
    /// The response is being written.
    Responding,
    /// Done. No further action but closing is ever asked for.
    Closed,
}

/// Why a connection is closed.
#[derive(Clone, Copy, Debug, PartialEq, Eq, Structural)]
pub enum Closing {
    /// The response was written: the exchange is complete.
    Answered,
    /// No request could be had from what the peer sent. Nothing was
    /// written.
    Framing(FrameError),
    /// A read failed before the request was whole. Nothing was written.
    ReadFailed,
    /// The response could not be written.
    WriteFailed,
    /// An event was reported that the connection had not asked for, or the
    /// connection was closed already.
    OutOfTurn,
}

/// What happened on a connection.
#[derive(Debug, PartialEq, Eq)]
pub enum ConnEvent {
    /// The connection was accepted.
    Opened,
    /// A read returned these bytes.
    Received(Vec<u8>),
    /// A read found the peer's sending side closed.
    EndOfStream,
    /// A read failed.
    ReadFailed,
    /// The handler answered the request with this reply.
    Replied(String),
    /// The handler failed on the request.
    Failed,
    /// The response was written.
    Written,
    /// Writing the response failed.
    WriteFailed,
}

/// What a connection's driver is to do next.
#[derive(Debug, PartialEq, Eq)]
pub enum ConnAction {
    /// Read some bytes, preferably no more than `at_most`, and report them.
    Read { at_most: usize },
    /// Hand this request to the handler and report its outcome.
    Handle(String),
    /// Write these bytes and report whether that worked.
    Write(Vec<u8>),
    /// Close the connection. The reason is for the record: the connection
    /// is closed whatever it says.
    Close(Closing),
}

/// An event, with its bytes and text as sequences.
pub enum ConnEventView {
    Opened,
    Received(Seq<u8>),
    EndOfStream,
    ReadFailed,
    Replied(Seq<char>),
    Failed,
    Written,
    WriteFailed,
}

/// An action, with its bytes and text as sequences.
pub enum ConnActionView {
    Read { at_most: nat },
    Handle(Seq<char>),
    Write(Seq<u8>),
    Close(Closing),
}

impl View for ConnEvent {
    type V = ConnEventView;

    open spec fn view(&self) -> ConnEventView {
        match self {
            ConnEvent::Opened => ConnEventView::Opened,
            ConnEvent::Received(bytes) => ConnEventView::Received(bytes@),
            ConnEvent::EndOfStream => ConnEventView::EndOfStream,
            ConnEvent::ReadFailed => ConnEventView::ReadFailed,
            ConnEvent::Replied(reply) => ConnEventView::Replied(reply@),
            ConnEvent::Failed => ConnEventView::Failed,
            ConnEvent::Written => ConnEventView::Written,
            ConnEvent::WriteFailed => ConnEventView::WriteFailed,
        }
    }
}

impl View for ConnAction {
    type V = ConnActionView;

    open spec fn view(&self) -> ConnActionView {
        match self {
            ConnAction::Read { at_most } => ConnActionView::Read { at_most: *at_most as nat },
            ConnAction::Handle(request) => ConnActionView::Handle(request@),
            ConnAction::Write(bytes) => ConnActionView::Write(bytes@),
            ConnAction::Close(why) => ConnActionView::Close(*why),
        }
    }
}

/// A connection's state: its strategy, its phase, and the bytes read so far
/// toward a request that is not whole yet.
pub struct ConnectionView {
    pub framing: Framing,
    pub phase: Phase,
    pub inbound: Seq<u8>,
}

/// The number of bytes to ask for when `inbound` has been read and the
/// request is not whole. A length-prefixed request is never read past its
/// end; a line has no known end, so a chunk is asked for.
pub open spec fn wanted(framing: Framing, inbound: Seq<u8>) -> nat {
    match framing {
        Framing::Line => CHUNK as nat,
        Framing::LengthPrefixed => {
            let missing = if inbound.len() < 4 {
                4 - inbound.len()
            } else {
                4 + announced(inbound) - inbound.len()
            };
            if missing < 0 {
                0
            } else if missing < CHUNK {
                missing as nat
            } else {
                CHUNK as nat
            }
        },
    }
}

/// Reading goes on with `inbound` in hand.
pub open spec fn keep_reading(framing: Framing, inbound: Seq<u8>) -> (
    ConnectionView,
    ConnActionView,
) {
    (
        ConnectionView { framing, phase: Phase::Reading, inbound },
        ConnActionView::Read { at_most: wanted(framing, inbound) },
    )
}

/// The connection is closed, for the reason `why`.
pub open spec fn close(framing: Framing, why: Closing) -> (ConnectionView, ConnActionView) {
    (
        ConnectionView { framing, phase: Phase::Closed, inbound: Seq::empty() },
        ConnActionView::Close(why),
    )
}

/// Reading is over with `inbound` in hand: the request goes to the handler,
/// or, where there is none to be had, the connection is closed unanswered.
pub open spec fn deliver(framing: Framing, inbound: Seq<u8>) -> (ConnectionView, ConnActionView) {
    match framing.message(inbound) {
        Ok(request) => (
            ConnectionView { framing, phase: Phase::Handling, inbound: Seq::empty() },
            ConnActionView::Handle(request),
        ),
        Err(error) => close(framing, Closing::Framing(error)),
    }
}

/// The handler is done: its reply is written, or the sentinel where it
/// failed.
pub open spec fn respond(framing: Framing, outcome: Option<Seq<char>>) -> (
    ConnectionView,
    ConnActionView,
) {
    (
        ConnectionView { framing, phase: Phase::Responding, inbound: Seq::empty() },
        ConnActionView::Write(response_bytes(outcome)),
    )
}

/// The state that follows `pre` on `event`, and what is to be done next.
///
/// A failure closes the connection and no more: a request that cannot be
/// framed or read is left unanswered, a handler's failure is answered with
/// the sentinel, and a response that cannot be written is given up. An
/// event that does not belong to the phase closes the connection too.
pub open spec fn next(pre: ConnectionView, event: ConnEventView) -> (
    ConnectionView,
    ConnActionView,
) {
    match (pre.phase, event) {
        (Phase::Accepted, ConnEventView::Opened) => keep_reading(pre.framing, Seq::empty()),
        (Phase::Reading, ConnEventView::Received(chunk)) => {
            if pre.framing.complete(pre.inbound + chunk) {
                deliver(pre.framing, pre.inbound + chunk)
            } else {
                keep_reading(pre.framing, pre.inbound + chunk)
            }
        },
        (Phase::Reading, ConnEventView::EndOfStream) => deliver(pre.framing, pre.inbound),
        (Phase::Reading, ConnEventView::ReadFailed) => close(pre.framing, Closing::ReadFailed),
        (Phase::Handling, ConnEventView::Replied(reply)) => respond(pre.framing, Some(reply)),
        (Phase::Handling, ConnEventView::Failed) => respond(pre.framing, None),
        (Phase::Responding, ConnEventView::Written) => close(pre.framing, Closing::Answered),
        (Phase::Responding, ConnEventView::WriteFailed) => close(
            pre.framing,
            Closing::WriteFailed,
        ),
        _ => close(pre.framing, Closing::OutOfTurn),
    }
}

/// The server's side of one connection.
#[derive(Debug)]
pub struct Connection {
    framing: Framing,
    phase: Phase,
    inbound: Vec<u8>,
}

impl View for Connection {
    type V = ConnectionView;

    closed spec fn view(&self) -> ConnectionView {
        ConnectionView { framing: self.framing, phase: self.phase, inbound: self.inbound@ }
    }
}

/// Whether `byte` occurs in `bytes`.
fn has_byte(bytes: &Vec<u8>, byte: u8) -> (found: bool)
    ensures
        found == bytes@.contains(byte),
{
    let mut i: usize = 0;
    while i < bytes.len()
        invariant
            i <= bytes.len(),
            forall|k: int| 0 <= k < i ==> bytes@[k] != byte,
        decreases bytes.len() - i,
    {
        if bytes[i] == byte {
            return true;
        }
        i += 1;
    }
    false
}

/// The length that the prefix of `inbound` announces.
fn announced_length(inbound: &Vec<u8>) -> (n: u32)
    requires
        inbound.len() >= 4,
    ensures
        n == announced(inbound@),
{
    let prefix = slice_subrange(inbound.as_slice(), 0, PREFIX_LEN);
    assert(prefix@ =~= inbound@.take(4));
    decode_length(prefix)
}

/// Whether `inbound` holds a whole length-prefixed request.
fn frame_held(inbound: &Vec<u8>) -> (held: bool)
    ensures
        held == holds_frame(inbound@),
{
    if inbound.len() < PREFIX_LEN {
        return false;
    }
    let have: u64 = inbound.len() as u64;
    let need: u64 = 4 + announced_length(inbound) as u64;
    have >= need
}

/// The number of bytes to ask for next.
fn read_size(framing: Framing, inbound: &Vec<u8>) -> (n: usize)
    requires
        !framing.complete(inbound@),
    ensures
        n == wanted(framing, inbound@),
{
    match framing {
        Framing::Line => CHUNK,
        Framing::LengthPrefixed => {
            if inbound.len() < PREFIX_LEN {
                PREFIX_LEN - inbound.len()
            } else {
                let have: u64 = inbound.len() as u64;
                let need: u64 = 4 + announced_length(inbound) as u64;
                let missing: u64 = need - have;
                if missing < CHUNK as u64 {
                    missing as usize
                } else {
                    CHUNK
                }
            }
        },
    }
}

impl Connection {
    #[verifier::type_invariant]
    spec fn well_formed(self) -> bool {
        if self.phase is Reading {
            !self.framing.complete(self.inbound@)
        } else {
            self.inbound@.len() == 0
        }
    }

    /// A connection that was just accepted and will be read by `framing`.
    pub fn new(framing: Framing) -> (conn: Self)
        ensures
            conn@ == (ConnectionView { framing, phase: Phase::Accepted, inbound: Seq::empty() }),
    {
        Connection { framing, phase: Phase::Accepted, inbound: Vec::new() }
    }

    /// Where the connection stands.
    pub fn phase(&self) -> (phase: Phase)
        ensures
            phase == self@.phase,
    {
        self.phase
    }

    /// The strategy by which the connection is read.
    pub fn framing(&self) -> (framing: Framing)
        ensures
            framing == self@.framing,
    {
        self.framing
    }

    fn reading(framing: Framing, inbound: Vec<u8>) -> (step: (Connection, ConnAction))
        requires
            !framing.complete(inbound@),
        ensures
            (step.0@, step.1@) == keep_reading(framing, inbound@),
    {
        let at_most: usize = read_size(framing, &inbound);
        (Connection { framing, phase: Phase::Reading, inbound }, ConnAction::Read { at_most })
    }

    fn closing(framing: Framing, why: Closing) -> (step: (Connection, ConnAction))
        ensures
            (step.0@, step.1@) == close(framing, why),
    {
        (
            Connection { framing, phase: Phase::Closed, inbound: Vec::new() },
            ConnAction::Close(why),
        )
    }

    fn delivering(framing: Framing, inbound: Vec<u8>) -> (step: (Connection, ConnAction))
        ensures
            (step.0@, step.1@) == deliver(framing, inbound@),
    {
        let mut stream = ByteStream::new(inbound);
        match framing.read(&mut stream) {
            Ok(request) => (
                Connection { framing, phase: Phase::Handling, inbound: Vec::new() },
                ConnAction::Handle(request),
            ),
            Err(error) => Connection::closing(framing, Closing::Framing(error)),
        }
    }

    fn responding(framing: Framing, outcome: Option<String>) -> (step: (Connection, ConnAction))
        ensures
            (step.0@, step.1@) == respond(framing, crate::text::opt_text(outcome)),
    {
        let bytes: Vec<u8> = encode_response(outcome);
        (
            Connection { framing, phase: Phase::Responding, inbound: Vec::new() },
            ConnAction::Write(bytes),
        )
    }

    /// Takes the connection one step on: from its state and what happened
    /// to its next state and what is to be done.
    pub fn step(self, event: ConnEvent) -> (step: (Connection, ConnAction))
        ensures
            (step.0@, step.1@) == next(self@, event@),
    {
        proof {
            use_type_invariant(&self);
        }
        let framing: Framing = self.framing;
        match (self.phase, event) {
            (Phase::Accepted, ConnEvent::Opened) => Connection::reading(framing, Vec::new()),
            (Phase::Reading, ConnEvent::Received(chunk)) => {
                let mut chunk = chunk;
                let mut inbound: Vec<u8> = self.inbound;
                let ghost before = inbound@;
                let ghost added = chunk@;
                let newline: bool = has_byte(&chunk, NEWLINE);
                inbound.append(&mut chunk);
                let whole: bool = match framing {
                    Framing::Line => newline,
                    Framing::LengthPrefixed => frame_held(&inbound),
                };
                proof {
                    if framing is Line {
                        lemma_contains_either(before, added, NEWLINE);
                    }
                }
                if whole {
                    Connection::delivering(framing, inbound)
                } else {
                    Connection::reading(framing, inbound)
                }
            },
            (Phase::Reading, ConnEvent::EndOfStream) => Connection::delivering(
                framing,
                self.inbound,
            ),
            (Phase::Handling, ConnEvent::Replied(reply)) => Connection::responding(
                framing,
                Some(reply),
            ),
            (Phase::Handling, ConnEvent::Failed) => Connection::responding(framing, None),
            (Phase::Reading, ConnEvent::ReadFailed) => Connection::closing(
                framing,
                Closing::ReadFailed,
            ),
            (Phase::Responding, ConnEvent::Written) => Connection::closing(
                framing,
                Closing::Answered,
            ),
            (Phase::Responding, ConnEvent::WriteFailed) => Connection::closing(
                framing,
                Closing::WriteFailed,
            ),
            _ => Connection::closing(framing, Closing::OutOfTurn),
        }
    }
}

/// A byte occurs in two runs laid end to end where it occurs in either.
proof fn lemma_contains_either(a: Seq<u8>, b: Seq<u8>, byte: u8)
    ensures
        (a + b).contains(byte) <==> a.contains(byte) || b.contains(byte),
{
    if a.contains(byte) {
        let i = choose|i: int| 0 <= i < a.len() && a[i] == byte;
        assert((a + b)[i] == byte);
    }
    if b.contains(byte) {
        let i = choose|i: int| 0 <= i < b.len() && b[i] == byte;
        assert((a + b)[a.len() + i] == byte);
    }
    if (a + b).contains(byte) {
        let i = choose|i: int| 0 <= i < (a + b).len() && (a + b)[i] == byte;
        if i < a.len() {
            assert(a[i] == byte);
        } else {
            assert(b[i - a.len()] == byte);
        }
    }
}

} // verus!
