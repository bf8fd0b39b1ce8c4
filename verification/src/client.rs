//! The client's side of an endpoint.
//!
//! A client connects, writes one request, and reads until the server closes
//! the connection: everything read is the response. The connecting, writing
//! and reading are the transport's business, a function that the caller
//! supplies. It is handed the endpoint's path and the bytes of the request,
//! and hands back the bytes of the response or its own error. What is sent
//! and what is made of the answer are decided here.

use vstd::prelude::*;
use vstd::utf8::{decode_utf8, valid_utf8};
use crate::framer::text_result;
use crate::monitor::SockMonitor;
use crate::text::string_from_utf8;
use crate::wire::{encode_framed, encode_line, framed_request, line_request};

verus! {

/// Why a client got no reply.
#[derive(Debug, PartialEq, Eq)]
pub enum SendError<E> {
    /// The transport failed: the endpoint could not be reached, or the
    /// request could not be written, or the response could not be read.
    /// The transport's own error is passed on as it came.
    Transport(E),
    /// The response does not spell text.
    Decode,
}

/// A result that carries bytes, seen as one that carries a byte sequence.
pub open spec fn bytes_result<E>(r: Result<Vec<u8>, E>) -> Result<Seq<u8>, E> {
    match r {
        Ok(bytes) => Ok(bytes@),
        Err(e) => Err(e),
    }
}

/// What a client makes of the transport's `outcome`: the text of the
/// response, whatever it says, or the reason why there is none.
pub open spec fn reply_of<E>(outcome: Result<Seq<u8>, E>) -> Result<Seq<char>, SendError<E>> {
    match outcome {
        Ok(bytes) => if valid_utf8(bytes) {
            Ok(decode_utf8(bytes))
        } else {
            Err(SendError::Decode)
        },
        Err(e) => Err(SendError::Transport(e)),
    }
}

/// Makes a reply of the transport's `outcome`.
pub fn receive<E>(outcome: Result<Vec<u8>, E>) -> (reply: Result<String, SendError<E>>)
    ensures
        text_result(reply) == reply_of(bytes_result(outcome)),
{
    match outcome {
        Ok(bytes) => match string_from_utf8(bytes) {
            Some(text) => Ok(text),
            None => Err(SendError::Decode),
        },
        Err(e) => Err(SendError::Transport(e)),
    }
}

impl SockMonitor {
    /// Sends `msg` as a line request and returns the reply.
    ///
    /// The transport is called once, with this endpoint's path and the
    /// bytes of `msg`, followed by a newline unless `msg` ends in one. The
    /// reply is what `receive` makes of the transport's outcome.
    pub fn send_string<T, E>(&self, msg: &str, transport: T) -> (reply: Result<
        String,
        SendError<E>,
    >) where T: FnOnce(&str, Vec<u8>) -> Result<Vec<u8>, E>
        requires
            forall|path: &str, request: Vec<u8>|
                path@ == self@ && request@ == line_request(msg@) ==> transport.requires(
                    (path, request),
                ),
        ensures
            exists|path: &str, request: Vec<u8>, outcome: Result<Vec<u8>, E>|
                path@ == self@ && request@ == line_request(msg@) && transport.ensures(
                    (path, request),
                    outcome,
                ) && text_result(reply) == reply_of(bytes_result(outcome)),
    {
        let path: &str = self.path();
        let request: Vec<u8> = encode_line(msg);
        let ghost sent = request;
        let outcome = transport(path, request);
        assert(transport.ensures((path, sent), outcome));
        receive(outcome)
    }

    /// Sends `msg` as a length-prefixed request and returns the reply.
    ///
    /// The transport is called once, with this endpoint's path and the
    /// four-byte big-endian length of `msg` followed by `msg`. The reply is
    /// what `receive` makes of the transport's outcome.
    pub fn send_bytes<T, E>(&self, msg: &[u8], transport: T) -> (reply: Result<
        String,
        SendError<E>,
    >) where T: FnOnce(&str, Vec<u8>) -> Result<Vec<u8>, E>
        requires
            forall|path: &str, request: Vec<u8>|
                path@ == self@ && request@ == framed_request(msg@) ==> transport.requires(
                    (path, request),
                ),
        ensures
            exists|path: &str, request: Vec<u8>, outcome: Result<Vec<u8>, E>|
                path@ == self@ && request@ == framed_request(msg@) && transport.ensures(
                    (path, request),
                    outcome,
                ) && text_result(reply) == reply_of(bytes_result(outcome)),
    {
        let path: &str = self.path();
        let request: Vec<u8> = encode_framed(msg);
        let ghost sent = request;
        let outcome = transport(path, request);
        assert(transport.ensures((path, sent), outcome));
        receive(outcome)
    }
}

} // verus!
