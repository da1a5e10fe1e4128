//! The wire form of forwarded pending-transaction payloads, and the timing
//! arithmetic on their embedded timestamps.
//!
//! A message carries the sender's clock reading (milliseconds since the
//! UNIX epoch) followed by an opaque payload. On the wire that is: the
//! timestamp as 16 little-endian bytes, the payload length as 8
//! little-endian bytes, then the payload itself. Decoding accepts exactly
//! the byte strings this encoding produces.
//!
//! Clocks of distinct nodes may disagree, so a receive time at or before
//! the embedded send time degrades to "no data" instead of producing a
//! nonsensical sample.

use vstd::bytes::{
    lemma_auto_spec_u128_to_from_le_bytes, lemma_auto_spec_u64_to_from_le_bytes,
    spec_u128_from_le_bytes, spec_u128_to_le_bytes, spec_u64_from_le_bytes, spec_u64_to_le_bytes,
    u128_from_le_bytes, u128_to_le_bytes, u64_from_le_bytes, u64_to_le_bytes,
};
use vstd::prelude::*;
use vstd::slice::{slice_subrange, slice_to_vec};

verus! {

/// A simulated pending-transaction payload forwarded between peers: the
/// sender's clock reading when it was published, and the payload bytes.
#[derive(PartialEq, Debug)]
pub struct PendingTxMessage {
    pub sent_time_millis: u128,
    pub data: Vec<u8>,
}

/// Why a byte string is not a valid message encoding.
#[derive(Clone, Copy, PartialEq, Eq, Structural, Debug)]
pub enum DecodeError {
    /// Shorter than the fixed 24-byte prefix.
    TooShort,
    /// The embedded payload length disagrees with the bytes present.
    LengthMismatch,
}

/// The wire bytes of a message: timestamp, payload length, payload.
pub open spec fn encode_spec(sent_time_millis: u128, data: Seq<u8>) -> Seq<u8> {
    spec_u128_to_le_bytes(sent_time_millis) + spec_u64_to_le_bytes(data.len() as u64) + data
}

/// Whether a byte string is a valid message encoding: it holds the 24-byte
/// prefix and exactly as many payload bytes as the prefix announces.
pub open spec fn wf_wire(bytes: Seq<u8>) -> bool {
    bytes.len() >= 24 && bytes.len() - 24 == spec_u64_from_le_bytes(bytes.subrange(16, 24))
}

/// The embedded send timestamp of a wire-form byte string.
pub open spec fn wire_sent_millis(bytes: Seq<u8>) -> u128 {
    spec_u128_from_le_bytes(bytes.subrange(0, 16))
}

/// The payload of a wire-form byte string.
pub open spec fn wire_payload(bytes: Seq<u8>) -> Seq<u8> {
    bytes.skip(24)
}

/// The message a byte string encodes, if any.
pub open spec fn decode_spec(bytes: Seq<u8>) -> Option<(u128, Seq<u8>)> {
    if wf_wire(bytes) {
        Some((wire_sent_millis(bytes), wire_payload(bytes)))
    } else {
        None
    }
}

impl PendingTxMessage {
    /// Serializes the message into its wire form.
    pub fn encode(&self) -> (r: Vec<u8>)
        ensures
            r@ == encode_spec(self.sent_time_millis, self.data@),
    {
        let mut out = u128_to_le_bytes(self.sent_time_millis);
        let mut len_bytes = u64_to_le_bytes(self.data.len() as u64);
        out.append(&mut len_bytes);
        out.extend_from_slice(self.data.as_slice());
        proof {
            assert(out@ =~= encode_spec(self.sent_time_millis, self.data@));
        }
        out
    }

    /// Parses a wire-form byte string, accepting exactly the encodings
    /// `encode` produces and naming what is wrong with anything else.
    pub fn decode(bytes: &[u8]) -> (r: Result<PendingTxMessage, DecodeError>)
        ensures
            match r {
                Ok(m) => decode_spec(bytes@) == Some((m.sent_time_millis, m.data@)),
                Err(e) => decode_spec(bytes@) is None && ((e == DecodeError::TooShort) <==> bytes@.len() < 24),
            },
            r is Ok <==> decode_spec(bytes@) is Some,
    {
        if bytes.len() < 24 {
            return Err(DecodeError::TooShort);
        }
        let ts = u128_from_le_bytes(slice_subrange(bytes, 0, 16));
        let announced = u64_from_le_bytes(slice_subrange(bytes, 16, 24));
        let payload_len = bytes.len() - 24;
        if (payload_len as u64) != announced {
            return Err(DecodeError::LengthMismatch);
        }
        let data = slice_to_vec(slice_subrange(bytes, 24, bytes.len()));
        proof {
            assert(bytes@.subrange(24, bytes@.len() as int) =~= bytes@.skip(24));
        }
        Ok(PendingTxMessage { sent_time_millis: ts, data })
    }
}

/// Decoding inverts encoding: every message round-trips through the wire
/// form exactly.
pub proof fn lemma_codec_round_trip(sent_time_millis: u128, data: Seq<u8>)
    requires
        data.len() <= u64::MAX,
    ensures
        decode_spec(encode_spec(sent_time_millis, data)) == Some((sent_time_millis, data)),
{
    lemma_auto_spec_u128_to_from_le_bytes();
    lemma_auto_spec_u64_to_from_le_bytes();
    let b = encode_spec(sent_time_millis, data);
    assert(b.subrange(0, 16) =~= spec_u128_to_le_bytes(sent_time_millis));
    assert(b.subrange(16, 24) =~= spec_u64_to_le_bytes(data.len() as u64));
    assert(b.skip(24) =~= data);
}

/// Whether a positive elapsed time below `u64::MAX` milliseconds lies
/// between an embedded send time and a receive time.
pub open spec fn has_elapsed(now_millis: u128, sent_millis: u128) -> bool {
    sent_millis < now_millis && now_millis - sent_millis <= u64::MAX
}

/// The elapsed milliseconds between the two clock readings (meaningful only
/// under `has_elapsed`).
pub open spec fn elapsed_val(now_millis: u128, sent_millis: u128) -> u64 {
    (now_millis - sent_millis) as u64
}

/// Whole milliseconds elapsed between an embedded send time and a receive
/// time, both read as milliseconds since the UNIX epoch. Zero or negative
/// elapsed time (clock skew between the two nodes) and spans beyond `u64`
/// degrade to "no data".
pub open spec fn elapsed_millis_spec(now_millis: u128, sent_millis: u128) -> Option<u64> {
    if has_elapsed(now_millis, sent_millis) {
        Some(elapsed_val(now_millis, sent_millis))
    } else {
        None
    }
}

/// Computes `elapsed_millis_spec`; never underflows or panics.
pub fn elapsed_millis(now_millis: u128, sent_millis: u128) -> (r: Option<u64>)
    ensures
        r == elapsed_millis_spec(now_millis, sent_millis),
{
    if sent_millis < now_millis {
        let d = now_millis - sent_millis;
        if d <= u64::MAX as u128 {
            Some(d as u64)
        } else {
            None
        }
    } else {
        None
    }
}

/// Whether `millis` milliseconds fit into `u64` nanoseconds.
pub open spec fn fits_in_nanos(millis: u64) -> bool {
    millis * 1_000_000 <= u64::MAX
}

/// `millis` milliseconds in nanoseconds (meaningful only under
/// `fits_in_nanos`).
pub open spec fn nanos_val(millis: u64) -> u64 {
    (millis * 1_000_000) as u64
}

/// Whole milliseconds as nanoseconds, or `None` where that leaves `u64`.
pub open spec fn millis_to_nanos_spec(millis: u64) -> Option<u64> {
    if fits_in_nanos(millis) {
        Some(nanos_val(millis))
    } else {
        None
    }
}

/// Computes `millis_to_nanos_spec`; never overflows.
pub fn millis_to_nanos(millis: u64) -> (r: Option<u64>)
    ensures
        r == millis_to_nanos_spec(millis),
{
    if millis <= u64::MAX / 1_000_000 {
        proof {
            assert(millis * 1_000_000 <= (u64::MAX / 1_000_000) * 1_000_000) by (nonlinear_arith)
                requires
                    millis <= u64::MAX / 1_000_000,
            ;
        }
        Some(millis * 1_000_000)
    } else {
        proof {
            assert(millis * 1_000_000 > u64::MAX) by (nonlinear_arith)
                requires
                    millis > u64::MAX / 1_000_000,
            ;
        }
        None
    }
}

} // verus!
