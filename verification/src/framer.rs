//! Framing: finding the one request at the head of a byte stream.
//!
//! Two strategies are built in. The line strategy takes the bytes up to the
//! first newline, or all of them where the stream ends without one. The
//! length-prefixed strategy takes a four-byte big-endian length and then
//! that many bytes. Either way the bytes taken must spell text.

use vstd::prelude::*;
use crate::monitor::SockMonitor;
use crate::stream::{lemma_through_first, lemma_through_first_extend, through_first, ByteStream};
use crate::text::{string_from_utf8, text_of, NEWLINE};
use crate::wire::{be_value, decode_length, PREFIX_LEN};

verus! {

/// Why no request could be had from a stream.
#[derive(Clone, Copy, Debug, PartialEq, Eq, Structural)]
pub enum FrameError {
    /// The stream ended before the request was complete.
    Truncated,
    /// The bytes of the request do not spell text.
    Decode,
}

/// A framing strategy.
#[derive(Clone, Copy, Debug, PartialEq, Eq, Structural)]
pub enum Framing {
    /// Text ended by a newline.
    Line,
    /// A four-byte big-endian length, then that many bytes of text.
    LengthPrefixed,
}

/// A result that carries a string, seen as one that carries text.
pub open spec fn text_result<E>(r: Result<String, E>) -> Result<Seq<char>, E> {
    match r {
        Ok(s) => Ok(s@),
        Err(e) => Err(e),
    }
}

/// The text that `bytes` spell, or the complaint that they spell none.
pub open spec fn decoded(bytes: Seq<u8>) -> Result<Seq<char>, FrameError> {
    match text_of(bytes) {
        Some(text) => Ok(text),
        None => Err(FrameError::Decode),
    }
}

/// The number of bytes that the line strategy takes from a stream that
/// holds `s` and then ends.
pub open spec fn line_consumed(s: Seq<u8>) -> nat {
    through_first(s, NEWLINE)
}

/// The bytes of the first line of `s`, without the newline that ends it.
pub open spec fn line_payload(s: Seq<u8>) -> Seq<u8> {
    let n = line_consumed(s) as int;
    if n > 0 && s[n - 1] == NEWLINE {
        s.take(n - 1)
    } else {
        s.take(n)
    }
}

/// What the line strategy makes of a stream that holds `s` and then ends.
pub open spec fn line_message(s: Seq<u8>) -> Result<Seq<char>, FrameError> {
    decoded(line_payload(s))
}

/// The length that the first four bytes of `s` announce.
pub open spec fn announced(s: Seq<u8>) -> nat
    recommends
        s.len() >= 4,
{
    be_value(s.take(4))
}

/// Whether `s` holds a whole length-prefixed request: the prefix and as
/// many bytes as it announces.
pub open spec fn holds_frame(s: Seq<u8>) -> bool {
    s.len() >= 4 && s.len() >= 4 + announced(s)
}

/// The number of bytes that the length-prefixed strategy takes from a
/// stream that holds `s` and then ends: the request where it is whole,
/// else everything.
pub open spec fn framed_consumed(s: Seq<u8>) -> nat {
    if holds_frame(s) {
        4 + announced(s)
    } else {
        s.len()
    }
}

/// What the length-prefixed strategy makes of a stream that holds `s` and
/// then ends.
pub open spec fn framed_message(s: Seq<u8>) -> Result<Seq<char>, FrameError> {
    if holds_frame(s) {
        decoded(s.subrange(4, 4 + announced(s) as int))
    } else {
        Err(FrameError::Truncated)
    }
}

impl Framing {
    /// What this strategy makes of a stream that holds `s` and then ends.
    pub open spec fn message(self, s: Seq<u8>) -> Result<Seq<char>, FrameError> {
        match self {
            Framing::Line => line_message(s),
            Framing::LengthPrefixed => framed_message(s),
        }
    }

    /// The number of bytes that this strategy takes from such a stream.
    pub open spec fn consumed(self, s: Seq<u8>) -> nat {
        match self {
            Framing::Line => line_consumed(s),
            Framing::LengthPrefixed => framed_consumed(s),
        }
    }

    /// Whether `s` holds a whole request: no byte that may follow `s` can
    /// change what this strategy makes of the stream.
    pub open spec fn complete(self, s: Seq<u8>) -> bool {
        match self {
            Framing::Line => s.contains(NEWLINE),
            Framing::LengthPrefixed => holds_frame(s),
        }
    }

    /// Reads one request from `stream` by this strategy.
    pub fn read(self, stream: &mut ByteStream) -> (request: Result<String, FrameError>)
        ensures
            text_result(request) == self.message(old(stream)@),
            final(stream)@ == old(stream)@.skip(self.consumed(old(stream)@) as int),
    {
        match self {
            Framing::Line => SockMonitor::read_line(stream),
            Framing::LengthPrefixed => SockMonitor::read_bytes(stream),
        }
    }
}

/// Once a stream holds a whole request, what follows changes neither the
/// request nor the number of bytes taken for it.
pub proof fn lemma_complete_is_stable(framing: Framing, s: Seq<u8>, more: Seq<u8>)
    requires
        framing.complete(s),
    ensures
        framing.complete(s + more),
        framing.message(s + more) == framing.message(s),
        framing.consumed(s + more) == framing.consumed(s),
{
    let t = s + more;
    match framing {
        Framing::Line => {
            lemma_through_first(s, NEWLINE);
            lemma_through_first_extend(s, more, NEWLINE);
            let n = through_first(s, NEWLINE) as int;
            assert(t[n - 1] == s[n - 1]);
            assert(t.contains(NEWLINE));
            assert(t.take(n - 1) =~= s.take(n - 1));
        },
        Framing::LengthPrefixed => {
            assert(t.take(4) =~= s.take(4));
            assert(t.subrange(4, 4 + announced(s) as int) =~= s.subrange(
                4,
                4 + announced(s) as int,
            ));
        },
    }
}

/// The text that `bytes` spell, as a request.
fn decode(bytes: Vec<u8>) -> (request: Result<String, FrameError>)
    ensures
        text_result(request) == decoded(bytes@),
{
    match string_from_utf8(bytes) {
        Some(text) => Ok(text),
        None => Err(FrameError::Decode),
    }
}

impl SockMonitor {
    /// Reads a newline-terminated request. The request is the text before
    /// the first newline; the newline is read and dropped. A stream that
    /// ends without a newline gives all it held.
    pub fn read_line(stream: &mut ByteStream) -> (request: Result<String, FrameError>)
        ensures
            text_result(request) == line_message(old(stream)@),
            final(stream)@ == old(stream)@.skip(line_consumed(old(stream)@) as int),
    {
        let mut line: Vec<u8> = stream.read_until(NEWLINE);
        let n: usize = line.len();
        proof {
            lemma_through_first(old(stream)@, NEWLINE);
        }
        if n > 0 && line[n - 1] == NEWLINE {
            line.pop();
            assert(line@ =~= line_payload(old(stream)@));
        } else {
            assert(line@ =~= line_payload(old(stream)@));
        }
        decode(line)
    }

    /// Reads a length-prefixed request: four bytes of big-endian length,
    /// then that many bytes of text. A stream that ends before either is
    /// complete is truncated, and is left at its end.
    pub fn read_bytes(stream: &mut ByteStream) -> (request: Result<String, FrameError>)
        ensures
            text_result(request) == framed_message(old(stream)@),
            final(stream)@ == old(stream)@.skip(framed_consumed(old(stream)@) as int),
    {
        let ghost s = stream@;
        let prefix: Vec<u8> = match stream.read_exact(PREFIX_LEN) {
            Some(prefix) => prefix,
            None => {
                assert(stream@ =~= s.skip(s.len() as int));
                return Err(FrameError::Truncated);
            },
        };
        let len: u32 = decode_length(prefix.as_slice());
        let payload: Vec<u8> = match stream.read_exact(len as usize) {
            Some(payload) => payload,
            None => {
                assert(stream@ =~= s.skip(s.len() as int));
                return Err(FrameError::Truncated);
            },
        };
        assert(payload@ =~= s.subrange(4, 4 + announced(s) as int));
        assert(stream@ =~= s.skip(4 + announced(s) as int));
        decode(payload)
    }
}

} // verus!
