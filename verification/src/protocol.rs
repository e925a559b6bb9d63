//! The application protocol: each message travels as a frame, a four-byte
//! big-endian length followed by that many bytes of MessagePack body. Frames
//! longer than [`MAX_FRAME`] are refused.

use vstd::prelude::*;
use crate::bytes::{be_bytes, be_u32, lemma_be_roundtrip};

verus! {

/// The largest frame body accepted, in bytes.
pub const MAX_FRAME: usize = 8 * 1024 * 1024;

/// The messages two devices exchange.
#[allow(inconsistent_fields)]
#[derive(Clone, Debug)]
pub enum Message {
    /// First message of a connection: who is connecting; answered with a challenge.
    Hello { device_id: String },
    /// A nonce for the connecting device to sign.
    Challenge { nonce: [u8; 32] },
    /// The signature over the challenge nonce.
    Auth { device_id: String, signature: Vec<u8> },
    /// A request to pair, with the requester's keys and a fresh nonce.
    PairingRequest {
        device_id: String,
        device_name: String,
        device_pubkey: Vec<u8>,
        cert_der: Vec<u8>,
        nonce: Vec<u8>,
    },
    /// The pairing was accepted; the responder's keys.
    PairingAccept { device_id: String, device_name: String, device_pubkey: Vec<u8>, cert_der: Vec<u8> },
    /// The pairing was refused.
    PairingReject { device_id: String },
    /// Clipboard content pushed to a paired device.
    ClipboardPush {
        msg_id: String,
        sender_id: String,
        content_type: String,
        content: Vec<u8>,
        alt_text: Option<String>,
        content_hash: String,
        timestamp_ms: i64,
    },
}

/// Why a frame could not be read.
#[derive(Clone, Copy, Debug, PartialEq, Eq, Structural)]
pub enum FrameError {
    /// Fewer bytes than the header and body need.
    Incomplete,
    /// The header announces more than [`MAX_FRAME`] bytes (the announced length).
    TooLarge(u32),
}

/// The frame of `body`: its length as four big-endian bytes (taken modulo 2^32,
/// as the cast to `u32` does), then the body.
pub open spec fn spec_frame(body: Seq<u8>) -> Seq<u8> {
    be_bytes(body.len() as int % 0x1_0000_0000) + body
}

/// What reading one frame from the start of `buf` gives: the body and the number
/// of bytes consumed, or why there is none.
pub open spec fn spec_read_frame(buf: Seq<u8>) -> Result<(Seq<u8>, int), FrameError> {
    if buf.len() < 4 {
        Err(FrameError::Incomplete)
    } else if be_u32(buf.take(4)) > MAX_FRAME {
        Err(FrameError::TooLarge(be_u32(buf.take(4)) as u32))
    } else if buf.len() < 4 + be_u32(buf.take(4)) {
        Err(FrameError::Incomplete)
    } else {
        Ok((buf.subrange(4, 4 + be_u32(buf.take(4))), 4 + be_u32(buf.take(4))))
    }
}

/// Prefixes `body` with its length (four bytes, big-endian).
pub fn encode_frame(body: &[u8]) -> (out: Vec<u8>)
    ensures
        out@ == spec_frame(body@),
{
    let n: u32 = ((body.len() as u64) % 0x1_0000_0000u64) as u32;
    let mut out: Vec<u8> = Vec::new();
    out.push((n / 0x1000000) as u8);
    out.push((n / 0x10000 % 0x100) as u8);
    out.push((n / 0x100 % 0x100) as u8);
    out.push((n % 0x100) as u8);
    crate::bytes::append_bytes(&mut out, body);
    assert(out@ =~= spec_frame(body@));
    out
}

/// The body length a frame header announces; refused when above [`MAX_FRAME`].
pub fn frame_length(header: &[u8; 4]) -> (r: Result<usize, FrameError>)
    ensures
        r matches Ok(n) ==> n == be_u32(header@) && n <= MAX_FRAME,
        r matches Err(e) ==> e == FrameError::TooLarge(be_u32(header@) as u32) && be_u32(header@)
            > MAX_FRAME,
{
    let n: u32 = (header[0] as u32) * 0x1000000 + (header[1] as u32) * 0x10000 + (header[2] as u32)
        * 0x100 + (header[3] as u32);
    if n as usize > MAX_FRAME {
        Err(FrameError::TooLarge(n))
    } else {
        Ok(n as usize)
    }
}

/// Reads one frame from the start of `buf`: the body and the bytes consumed.
pub fn read_frame(buf: &[u8]) -> (r: Result<(Vec<u8>, usize), FrameError>)
    ensures
        r matches Ok((body, used)) ==> spec_read_frame(buf@) == Ok::<(Seq<u8>, int), FrameError>(
            (body@, used as int),
        ),
        r matches Err(e) ==> spec_read_frame(buf@) == Err::<(Seq<u8>, int), FrameError>(e),
{
    if buf.len() < 4 {
        return Err(FrameError::Incomplete);
    }
    let header: [u8; 4] = [buf[0], buf[1], buf[2], buf[3]];
    assert(header@ =~= buf@.take(4));
    let n = frame_length(&header)?;
    if buf.len() - 4 < n {
        return Err(FrameError::Incomplete);
    }
    let body = crate::bytes::sub_bytes(buf, 4, 4 + n);
    Ok((body, 4 + n))
}

/// Reading a frame back gives what was framed, whatever follows it, for every body
/// up to [`MAX_FRAME`] bytes.
pub proof fn lemma_read_encoded_frame(body: Seq<u8>, rest: Seq<u8>)
    requires
        body.len() <= MAX_FRAME,
    ensures
        spec_read_frame(spec_frame(body) + rest) == Ok::<(Seq<u8>, int), FrameError>(
            (body, 4 + body.len() as int),
        ),
{
    lemma_be_roundtrip(body.len() as int);
    let buf = spec_frame(body) + rest;
    assert(buf.take(4) =~= be_bytes(body.len() as int));
    assert(buf.subrange(4, 4 + body.len() as int) =~= body);
}

/// A body larger than [`MAX_FRAME`] (but below 2^32 bytes) is refused when read back.
pub proof fn lemma_oversized_frame_refused(body: Seq<u8>, rest: Seq<u8>)
    requires
        MAX_FRAME < body.len() < 0x1_0000_0000,
    ensures
        spec_read_frame(spec_frame(body) + rest) == Err::<(Seq<u8>, int), FrameError>(
            FrameError::TooLarge(body.len() as u32),
        ),
{
    lemma_be_roundtrip(body.len() as int);
    let buf = spec_frame(body) + rest;
    assert(buf.take(4) =~= be_bytes(body.len() as int));
}

} // verus!
