//! The daemon's wire format: a request is a sequence of tokens, each
//! terminated by a zero byte, closed by one more zero byte, and prefixed
//! with the 32-bit little-endian length of that payload. A reply whose
//! first byte is `0x07` carries an error text.

use vstd::prelude::*;
use vstd::bytes::spec_u32_to_le_bytes;
use vstd::utf8::encode_utf8;
use vstd::string::StrSliceExecFns;
use vstd::string::StringExecFns;
use byteorder::{LittleEndian, WriteBytesExt};
use crate::error::Error;

verus! {

/// The reply byte that marks a daemon failure text.
pub const FAILURE_BYTE: u8 = 0x07;

#[derive(Debug, Clone, Copy, PartialEq, Eq, Structural)]
pub enum QueryDomain {
    Windows,
    Spaces,
    Displays,
}

impl QueryDomain {
    /// The daemon's flag for this query domain.
    pub fn as_str(&self) -> (r: &'static str)
        ensures
            *self is Windows ==> r@ == "--windows"@,
            *self is Spaces ==> r@ == "--spaces"@,
            *self is Displays ==> r@ == "--displays"@,
    {
        match *self {
            QueryDomain::Windows => "--windows",
            QueryDomain::Spaces => "--spaces",
            QueryDomain::Displays => "--displays",
        }
    }
}

/// The tokens of a state query: `query --<domain>`.
pub fn query_tokens(domain: &QueryDomain) -> (r: Vec<String>)
    ensures
        r.deep_view() =~= seq![
            "query"@,
            match *domain {
                QueryDomain::Windows => "--windows"@,
                QueryDomain::Spaces => "--spaces"@,
                QueryDomain::Displays => "--displays"@,
            },
        ],
{
    let mut v: Vec<String> = Vec::new();
    v.push(String::from_str("query"));
    v.push(String::from_str(domain.as_str()));
    proof {
        assert(v.deep_view() =~= seq![
            "query"@,
            match *domain {
                QueryDomain::Windows => "--windows"@,
                QueryDomain::Spaces => "--spaces"@,
                QueryDomain::Displays => "--displays"@,
            },
        ]);
    }
    v
}

/// The bytes one token contributes to a payload: its UTF-8 encoding and a
/// zero terminator.
pub open spec fn spec_token_bytes(t: Seq<char>) -> Seq<u8> {
    encode_utf8(t) + seq![0u8]
}

/// The bytes of a token sequence, without the closing zero byte.
pub open spec fn spec_tokens_bytes(tokens: Seq<Seq<char>>) -> Seq<u8>
    decreases tokens.len(),
{
    if tokens.len() == 0 {
        Seq::empty()
    } else {
        spec_tokens_bytes(tokens.drop_last()) + spec_token_bytes(tokens.last())
    }
}

/// The full payload: every token zero-terminated, then one more zero byte
/// as end-of-message.
pub open spec fn spec_payload(tokens: Seq<Seq<char>>) -> Seq<u8> {
    spec_tokens_bytes(tokens) + seq![0u8]
}

/// The framed message: the payload prefixed with its 32-bit little-endian
/// length.
pub open spec fn spec_message(tokens: Seq<Seq<char>>) -> Seq<u8> {
    spec_u32_to_le_bytes(spec_payload(tokens).len() as u32) + spec_payload(tokens)
}

/// Relies on byteorder's `WriteBytesExt::write_u32::<LittleEndian>`: on a
/// `Vec<u8>` it appends exactly the four little-endian bytes of `v`
/// (`LittleEndian::write_u32` copies `v.to_le_bytes()`, and writing to a
/// `Vec` never fails).
#[verifier::external_body]
fn put_u32_le(buf: &mut Vec<u8>, v: u32)
    ensures
        final(buf)@ == old(buf)@ + spec_u32_to_le_bytes(v),
{
    buf.write_u32::<LittleEndian>(v).unwrap();
}

/// Frame a token sequence into the daemon's message format. Fails exactly
/// when the payload is too long for the 32-bit length prefix.
pub fn encode_message(tokens: &Vec<String>) -> (r: Result<Vec<u8>, Error>)
    ensures
        r matches Ok(b) ==> b@ == spec_message(tokens.deep_view()) && spec_payload(
            tokens.deep_view(),
        ).len() <= u32::MAX,
        r is Err <==> spec_payload(tokens.deep_view()).len() > u32::MAX,
        r matches Err(e) ==> e == Error::MessageTooLong,
{
    let ghost toks = tokens.deep_view();
    let n = tokens.len();
    let mut payload: Vec<u8> = Vec::new();
    let mut i: usize = 0;
    while i < n
        invariant
            0 <= i <= n,
            n == tokens@.len(),
            toks == tokens.deep_view(),
            payload@ == spec_tokens_bytes(toks.take(i as int)),
        decreases n - i,
    {
        let mut tb = tokens[i].as_str().as_bytes_vec();
        payload.append(&mut tb);
        payload.push(0u8);
        proof {
            assert(toks.take(i + 1).drop_last() =~= toks.take(i as int));
            assert(toks.take(i + 1).last() == toks[i as int]);
            assert(tokens@[i as int]@ == toks[i as int]);
            assert(payload@ =~= spec_tokens_bytes(toks.take(i + 1)));
        }
        i = i + 1;
    }
    proof {
        assert(toks.take(n as int) =~= toks);
    }
    payload.push(0u8);
    assert(payload@ =~= spec_payload(toks));
    if payload.len() > u32::MAX as usize {
        return Err(Error::MessageTooLong);
    }
    let len = payload.len() as u32;
    let mut frame: Vec<u8> = Vec::new();
    put_u32_le(&mut frame, len);
    frame.append(&mut payload);
    proof {
        assert(frame@ =~= spec_message(toks));
    }
    Ok(frame)
}

/// How a raw reply is to be read.
#[derive(Debug, Clone, Copy, PartialEq, Eq, Structural)]
pub enum ReplyClass {
    /// No bytes at all.
    Empty,
    /// The first byte is the failure marker; the rest is an error text.
    Failure,
    /// The whole reply is the payload.
    Payload,
}

/// Classify a raw reply by its first byte.
pub fn classify_reply(buf: &Vec<u8>) -> (r: ReplyClass)
    ensures
        r is Empty <==> buf@.len() == 0,
        r is Failure <==> buf@.len() > 0 && buf@[0] == FAILURE_BYTE,
        r is Payload <==> buf@.len() > 0 && buf@[0] != FAILURE_BYTE,
{
    if buf.len() == 0 {
        ReplyClass::Empty
    } else if buf[0] == FAILURE_BYTE {
        ReplyClass::Failure
    } else {
        ReplyClass::Payload
    }
}

/// The bytes of a failure reply after the marker byte.
pub fn reply_error_bytes(buf: &Vec<u8>) -> (r: Vec<u8>)
    requires
        buf@.len() > 0,
    ensures
        r@ == buf@.subrange(1, buf@.len() as int),
{
    let n = buf.len();
    let mut out: Vec<u8> = Vec::new();
    let mut i: usize = 1;
    while i < n
        invariant
            1 <= i <= n,
            n == buf@.len(),
            out@ == buf@.subrange(1, i as int),
        decreases n - i,
    {
        out.push(buf[i]);
        proof {
            assert(out@ =~= buf@.subrange(1, i + 1));
        }
        i = i + 1;
    }
    proof {
        assert(out@ =~= buf@.subrange(1, n as int));
    }
    out
}

} // verus!
