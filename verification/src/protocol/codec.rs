//! Framing of protocol messages on a byte stream:
//! `[MAGIC_BYTES (4)] [LENGTH (4, LE)] [PAYLOAD]`.
use super::format::{decode_message, enc_message, payload_fits, payload_v_wf, lemma_message_roundtrip};
use super::{LaurnMessage, MessageV};
use crate::wire::{enc_u32, lemma_enc_u32_len, lemma_p_u32, p_u32, read_u32, write_raw, write_u32};
use vstd::prelude::*;

verus! {

/// The magic bytes "LRN1" in ASCII, which filter out noise on the wire.
pub const MAGIC_BYTES: [u8; 4] = [76, 82, 78, 49];

/// Strict allocation limit for any single protocol message: 16 MB.
pub const MAX_MESSAGE_SIZE: u32 = 16777216;

/// Errors that can occur during encoding or decoding of the network stream.
#[derive(Debug, Clone, Copy, PartialEq, Eq, Structural)]
pub enum CodecError {
    /// The stream doesn't have enough bytes to form a complete message yet.
    IncompleteMessage,
    /// The message did not start with the required `MAGIC_BYTES`.
    InvalidMagicBytes,
    /// The declared message length exceeds `MAX_MESSAGE_SIZE`.
    MessageTooLarge(u32),
    /// The inner payload could not be decoded into a `LaurnMessage`.
    MalformedPayload,
    /// The message could not be serialized.
    SerializationFailed,
}

/// A frame around an encoded message.
pub open spec fn frame_bytes(payload: Seq<u8>) -> Seq<u8> {
    MAGIC_BYTES@ + enc_u32(payload.len() as u32) + payload
}

/// What encoding a message gives.
pub open spec fn encode_outcome(m: MessageV) -> Result<Seq<u8>, CodecError> {
    let p = enc_message(m);
    if !payload_fits(m.payload) || p.len() > u32::MAX {
        Err(CodecError::SerializationFailed)
    } else if p.len() > MAX_MESSAGE_SIZE {
        Err(CodecError::MessageTooLarge(p.len() as u32))
    } else {
        Ok(frame_bytes(p))
    }
}

/// The payload length a frame header declares.
pub open spec fn declared_len(s: Seq<u8>) -> u32 {
    p_u32(s, 4).unwrap().0
}

/// What decoding the start of a stream gives: the message and the number of
/// bytes it took, or the error.
pub open spec fn decode_outcome(s: Seq<u8>) -> Result<(MessageV, int), CodecError> {
    if s.len() < 8 {
        Err(CodecError::IncompleteMessage)
    } else if s.subrange(0, 4) != MAGIC_BYTES@ {
        Err(CodecError::InvalidMagicBytes)
    } else if declared_len(s) > MAX_MESSAGE_SIZE {
        Err(CodecError::MessageTooLarge(declared_len(s)))
    } else if s.len() < 8 + declared_len(s) {
        Err(CodecError::IncompleteMessage)
    } else {
        match decode_message(s.subrange(8, 8 + declared_len(s))) {
            Some(m) => Ok((m, 8 + declared_len(s))),
            None => Err(CodecError::MalformedPayload),
        }
    }
}

pub struct LaurnCodec;

impl LaurnCodec {
    /// Encodes a `LaurnMessage` into a framed byte stream.
    /// Format: `[MAGIC_BYTES (4)] [LENGTH (4, LE)] [PAYLOAD]`
    ///
    /// # Errors
    /// Returns `SerializationFailed` when the message cannot be serialized,
    /// and `MessageTooLarge` when its encoding exceeds `MAX_MESSAGE_SIZE`.
    pub fn encode(message: &LaurnMessage) -> (r: Result<Vec<u8>, CodecError>)
        ensures
            match r {
                Ok(b) => encode_outcome(message@) == Ok::<Seq<u8>, CodecError>(b@),
                Err(e) => encode_outcome(message@) == Err::<Seq<u8>, CodecError>(e),
            },
    {
        let payload = match message.try_to_vec() {
            Some(p) => p,
            None => return Err(CodecError::SerializationFailed),
        };
        if payload.len() > 0xFFFF_FFFF {
            return Err(CodecError::SerializationFailed);
        }
        let len = payload.len() as u32;
        if len > MAX_MESSAGE_SIZE {
            return Err(CodecError::MessageTooLarge(len));
        }
        let mut frame: Vec<u8> = Vec::new();
        let magic = MAGIC_BYTES;
        write_raw(&mut frame, &magic);
        write_u32(&mut frame, len);
        write_raw(&mut frame, payload.as_slice());
        assert(frame@ =~= frame_bytes(payload@));
        Ok(frame)
    }

    /// Attempts to decode a `LaurnMessage` from the start of a byte stream.
    ///
    /// Returns the message and the number of bytes it took, which tells the
    /// caller how far to advance its stream buffer.
    ///
    /// # Errors
    /// Returns `CodecError` on truncation, invalid magic bytes, size limits,
    /// or malformed data.
    pub fn decode(stream: &[u8]) -> (r: Result<(LaurnMessage, usize), CodecError>)
        ensures
            match r {
                Ok((m, n)) => decode_outcome(stream@) == Ok::<(MessageV, int), CodecError>(
                    (m@, n as int),
                ),
                Err(e) => decode_outcome(stream@) == Err::<(MessageV, int), CodecError>(e),
            },
    {
        if stream.len() < 8 {
            return Err(CodecError::IncompleteMessage);
        }
        let magic = MAGIC_BYTES;
        if stream[0] != magic[0] || stream[1] != magic[1] || stream[2] != magic[2] || stream[3]
            != magic[3] {
            proof {
                if stream@.subrange(0, 4) == MAGIC_BYTES@ {
                    assert(stream@.subrange(0, 4)[0] == stream@[0]);
                    assert(stream@.subrange(0, 4)[1] == stream@[1]);
                    assert(stream@.subrange(0, 4)[2] == stream@[2]);
                    assert(stream@.subrange(0, 4)[3] == stream@[3]);
                }
            }
            return Err(CodecError::InvalidMagicBytes);
        }
        assert(stream@.subrange(0, 4) =~= MAGIC_BYTES@);
        let payload_len = match read_u32(stream, 4) {
            Some((n, _)) => n,
            None => return Err(CodecError::IncompleteMessage),
        };
        if payload_len > MAX_MESSAGE_SIZE {
            return Err(CodecError::MessageTooLarge(payload_len));
        }
        let total_frame_len: usize = 8 + payload_len as usize;
        if stream.len() < total_frame_len {
            return Err(CodecError::IncompleteMessage);
        }
        let payload_bytes = vstd::slice::slice_subrange(stream, 8, total_frame_len);
        match LaurnMessage::try_from_slice(payload_bytes) {
            Some(m) => Ok((m, total_frame_len)),
            None => Err(CodecError::MalformedPayload),
        }
    }
}

/// A frame holds its payload's length as a `u32` after the magic bytes.
proof fn lemma_frame_parts(p: Seq<u8>)
    requires
        p.len() <= u32::MAX,
    ensures
        frame_bytes(p).len() == 8 + p.len(),
        frame_bytes(p).subrange(0, 4) == MAGIC_BYTES@,
        declared_len(frame_bytes(p)) == p.len(),
        frame_bytes(p).subrange(8, 8 + p.len() as int) == p,
{
    let f = frame_bytes(p);
    let h = enc_u32(p.len() as u32);
    lemma_enc_u32_len(p.len() as u32);
    assert(f.subrange(0, 4) =~= MAGIC_BYTES@);
    assert(f.subrange(4, 8) =~= h);
    lemma_p_u32(f, 4, p.len() as u32);
    assert(f.subrange(8, 8 + p.len() as int) =~= p);
}

/// Decoding what encoding gives returns the message, having taken the whole
/// frame.
pub proof fn lemma_codec_roundtrip(m: MessageV)
    requires
        payload_v_wf(m.payload),
        encode_outcome(m) is Ok,
    ensures
        decode_outcome(encode_outcome(m).unwrap()) == Ok::<(MessageV, int), CodecError>(
            (m, encode_outcome(m).unwrap().len() as int),
        ),
{
    let p = enc_message(m);
    lemma_frame_parts(p);
    lemma_message_roundtrip(m);
}

/// Bytes after a complete frame do not change what decoding the frame gives:
/// a stream decodes one message at a time.
pub proof fn lemma_decode_ignores_rest(s: Seq<u8>, rest: Seq<u8>)
    requires
        decode_outcome(s) is Ok,
    ensures
        decode_outcome(s + rest) == decode_outcome(s),
{
    let t = s + rest;
    assert(t.subrange(0, 4) =~= s.subrange(0, 4));
    assert(t.subrange(4, 8) =~= s.subrange(4, 8));
    let n = declared_len(s);
    assert(t.subrange(8, 8 + n) =~= s.subrange(8, 8 + n));
}

/// A decoded frame lies within the stream and within the size limit: it
/// takes the 8 header bytes and at most `MAX_MESSAGE_SIZE` payload bytes,
/// never more than the stream holds.
pub proof fn lemma_decode_within_limits(s: Seq<u8>)
    ensures
        decode_outcome(s) matches Ok((m, n)) ==> 8 <= n <= s.len() && n - 8 <= MAX_MESSAGE_SIZE,
{
}

} // verus!
