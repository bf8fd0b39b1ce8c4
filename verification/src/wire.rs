//! The wire format: how a request and a response are laid out in bytes.
//!
//! A request is either a line (text, then a newline) or a length-prefixed
//! payload (four bytes of big-endian length, then that many bytes of text).
//! A response is the bare text of the reply; the end of the stream ends it.

use vstd::prelude::*;
use vstd::slice::slice_to_vec;
use vstd::string::StrSliceExecFns;
use vstd::utf8::encode_utf8;
use crate::text::{
    lemma_encode_concat, lemma_encode_last_newline, lemma_encode_single, lemma_scalar_newline,
    opt_text, NEWLINE,
};

verus! {

/// The number of bytes in a length prefix.
pub const PREFIX_LEN: usize = 4;

/// One more than the largest length a prefix can carry.
pub open spec fn prefix_limit() -> nat {
    0x1_0000_0000
}

/// The reply that stands for a handler's failure.
pub const SENTINEL: &'static str = "ERR";

/// The number that four bytes spell, most significant byte first.
pub open spec fn be_value(prefix: Seq<u8>) -> nat
    recommends
        prefix.len() == 4,
{
    (prefix[0] as nat) * 0x100_0000 + (prefix[1] as nat) * 0x1_0000 + (prefix[2] as nat) * 0x100
        + (prefix[3] as nat)
}

/// The four bytes that spell `n`, most significant byte first.
pub open spec fn be_prefix(n: nat) -> Seq<u8>
    recommends
        n < prefix_limit(),
{
    seq![
        (n / 0x100_0000) as u8,
        (n / 0x1_0000 % 0x100) as u8,
        (n / 0x100 % 0x100) as u8,
        (n % 0x100) as u8,
    ]
}

/// `msg` with a newline after it, unless it ends in one already.
pub open spec fn terminated(msg: Seq<char>) -> Seq<char> {
    if msg.len() > 0 && msg.last() == '\n' {
        msg
    } else {
        msg.push('\n')
    }
}

/// The bytes of a line request for `msg`.
pub open spec fn line_request(msg: Seq<char>) -> Seq<u8> {
    encode_utf8(terminated(msg))
}

/// The bytes of a length-prefixed request for `payload`. The prefix has
/// room for 32 bits: a longer payload is announced by the low 32 bits of
/// its length.
pub open spec fn framed_request(payload: Seq<u8>) -> Seq<u8> {
    be_prefix(payload.len() % prefix_limit()) + payload
}

/// The bytes of the response to a request that the handler answered with
/// `outcome`: the reply itself, or the sentinel for a failure.
pub open spec fn response_bytes(outcome: Option<Seq<char>>) -> Seq<u8> {
    match outcome {
        Some(reply) => encode_utf8(reply),
        None => encode_utf8(SENTINEL@),
    }
}

/// Reading a prefix gives back the number it was written for.
pub proof fn lemma_prefix_value(n: nat)
    requires
        n < prefix_limit(),
    ensures
        be_prefix(n).len() == 4,
        be_value(be_prefix(n)) == n,
{
}

/// The number that the four bytes of `prefix` spell.
pub(crate) fn decode_length(prefix: &[u8]) -> (n: u32)
    requires
        prefix.len() == 4,
    ensures
        n == be_value(prefix@),
{
    let b0: u32 = prefix[0] as u32;
    let b1: u32 = prefix[1] as u32;
    let b2: u32 = prefix[2] as u32;
    let b3: u32 = prefix[3] as u32;
    b0 * 0x100_0000 + b1 * 0x1_0000 + b2 * 0x100 + b3
}

/// The four-byte prefix that announces `n` bytes.
pub fn encode_length(n: u32) -> (prefix: Vec<u8>)
    ensures
        prefix@ == be_prefix(n as nat),
{
    let mut prefix: Vec<u8> = Vec::with_capacity(4);
    prefix.push((n / 0x100_0000) as u8);
    prefix.push((n / 0x1_0000 % 0x100) as u8);
    prefix.push((n / 0x100 % 0x100) as u8);
    prefix.push((n % 0x100) as u8);
    assert(prefix@ =~= be_prefix(n as nat));
    prefix
}

/// Lays `msg` out as a line request: its bytes, and a newline after them
/// unless `msg` ends in one.
pub fn encode_line(msg: &str) -> (wire: Vec<u8>)
    ensures
        wire@ == line_request(msg@),
{
    let bytes = msg.as_bytes();
    let mut wire: Vec<u8> = slice_to_vec(bytes);
    let n: usize = bytes.len();
    proof {
        if msg@.len() > 0 {
            lemma_encode_last_newline(msg@);
        } else {
            assert(encode_utf8(msg@).len() == 0);
        }
    }
    if n == 0 || bytes[n - 1] != NEWLINE {
        wire.push(NEWLINE);
        proof {
            lemma_encode_concat(msg@, seq!['\n']);
            lemma_encode_single('\n');
            lemma_scalar_newline('\n');
            assert(msg@.push('\n') =~= msg@ + seq!['\n']);
            assert(wire@ =~= encode_utf8(msg@) + seq![NEWLINE]);
        }
    }
    wire
}

/// Lays `payload` out as a length-prefixed request.
pub fn encode_framed(payload: &[u8]) -> (wire: Vec<u8>)
    ensures
        wire@ == framed_request(payload@),
{
    let len: u64 = payload.len() as u64;
    let announced: u32 = (len % 0x1_0000_0000) as u32;
    let mut wire: Vec<u8> = encode_length(announced);
    wire.extend_from_slice(payload);
    wire
}

/// Lays out the response to a request that the handler answered with
/// `outcome`.
pub fn encode_response(outcome: Option<String>) -> (wire: Vec<u8>)
    ensures
        wire@ == response_bytes(opt_text(outcome)),
{
    match outcome {
        Some(reply) => reply.as_str().as_bytes_vec(),
        None => SENTINEL.as_bytes_vec(),
    }
}

} // verus!
