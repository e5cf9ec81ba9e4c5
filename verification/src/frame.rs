//! The wire format of the stream transport: a header of four bytes that
//! spell the payload's length in big-endian order, then the payload, and
//! nothing else.

use vstd::prelude::*;

use vstd::arithmetic::div_mod::{
    lemma_div_denominator, lemma_fundamental_div_mod, lemma_fundamental_div_mod_converse,
};
use vstd::slice::{slice_subrange, slice_to_vec};

use crate::error::IpcError;

verus! {

/// The length of a frame's header in bytes.
pub const HEADER_LEN: usize = 4;

/// The number that the first four bytes spell in big-endian order.
pub open spec fn be_value(bytes: Seq<u8>) -> nat
    recommends
        bytes.len() >= 4,
{
    (bytes[0] * 0x100_0000 + bytes[1] * 0x1_0000 + bytes[2] * 0x100 + bytes[3]) as nat
}

/// The four bytes that spell `value` in big-endian order.
pub open spec fn be_bytes(value: u32) -> Seq<u8> {
    seq![
        (value / 0x100_0000) as u8,
        (value / 0x1_0000 % 0x100) as u8,
        (value / 0x100 % 0x100) as u8,
        (value % 0x100) as u8,
    ]
}

/// The frame that carries `payload`.
pub open spec fn framed(payload: Seq<u8>) -> Seq<u8>
    recommends
        payload.len() <= u32::MAX,
{
    be_bytes(payload.len() as u32) + payload
}

/// How far the bytes received on one connection have come as a frame.
pub enum Progress {
    /// The header has not arrived in full.
    AwaitingHeader,
    /// The header is in, and is within the budget; payload is missing.
    AwaitingPayload,
    /// Header and payload are in.
    Complete,
    /// The header declares more than the budget allows.
    Oversized,
}

/// A declared length is within the budget when header and payload
/// together are no longer than `max_size`.
pub open spec fn within_budget(declared: nat, max_size: nat) -> bool {
    declared + 4 <= max_size
}

/// How far `received` has come as a frame under the budget `max_size`.
pub open spec fn progress(received: Seq<u8>, max_size: nat) -> Progress {
    if received.len() < 4 {
        Progress::AwaitingHeader
    } else if !within_budget(be_value(received), max_size) {
        Progress::Oversized
    } else if received.len() < 4 + be_value(received) {
        Progress::AwaitingPayload
    } else {
        Progress::Complete
    }
}

/// The payload of the frame that `wire` starts with, where `wire` is all
/// that a connection carried before its peer closed it.
///
/// The budget is checked on the header alone, before any payload counts.
/// Bytes after the frame are not part of the message.
pub open spec fn parsed(wire: Seq<u8>, max_size: nat) -> Result<Seq<u8>, IpcError> {
    match progress(wire, max_size) {
        Progress::AwaitingHeader => Err(IpcError::TruncatedMessage),
        Progress::AwaitingPayload => Err(IpcError::TruncatedMessage),
        Progress::Oversized => Err(
            IpcError::OversizedMessage {
                declared: be_value(wire) as u32,
                max_size: max_size as usize,
            },
        ),
        Progress::Complete => Ok(wire.subrange(4, 4 + be_value(wire) as int)),
    }
}

/// The bytes of a number spell that number.
pub proof fn lemma_be_value_of_bytes(value: u32)
    ensures
        be_bytes(value).len() == 4,
        be_value(be_bytes(value)) == value,
{
    let v: int = value as int;
    let low: int = v / 0x100;
    let mid: int = v / 0x1_0000;
    let high: int = v / 0x100_0000;
    lemma_div_denominator(v, 0x100, 0x100);
    lemma_div_denominator(v, 0x1_0000, 0x100);
    assert(low / 0x100 == mid);
    assert(mid / 0x100 == high);
    lemma_fundamental_div_mod(v, 0x100);
    lemma_fundamental_div_mod(low, 0x100);
    lemma_fundamental_div_mod(mid, 0x100);
    assert(v == 0x100 * low + v % 0x100);
    assert(low == 0x100 * mid + low % 0x100);
    assert(mid == 0x100 * high + mid % 0x100);
}

/// Four bytes are the bytes of the number that they spell.
pub proof fn lemma_be_bytes_of_value(bytes: Seq<u8>)
    requires
        bytes.len() == 4,
    ensures
        be_value(bytes) <= u32::MAX,
        be_bytes(be_value(bytes) as u32) == bytes,
{
    let v: int = be_value(bytes) as int;
    let a: int = bytes[0] as int;
    let b: int = bytes[1] as int;
    let c: int = bytes[2] as int;
    let d: int = bytes[3] as int;
    assert(v == a * 0x100_0000 + b * 0x1_0000 + c * 0x100 + d);
    lemma_fundamental_div_mod_converse(v, 0x100, a * 0x1_0000 + b * 0x100 + c, d);
    lemma_fundamental_div_mod_converse(v, 0x1_0000, a * 0x100 + b, c * 0x100 + d);
    lemma_fundamental_div_mod_converse(v, 0x100_0000, a, b * 0x1_0000 + c * 0x100 + d);
    lemma_fundamental_div_mod_converse(v / 0x100, 0x100, a * 0x100 + b, c);
    lemma_fundamental_div_mod_converse(v / 0x1_0000, 0x100, a, b);
    assert(be_bytes(v as u32) =~= bytes);
}

/// Writes a length as a header.
pub fn encode_header(len: u32) -> (header: [u8; 4])
    ensures
        header@ == be_bytes(len),
        be_value(header@) == len,
{
    let header: [u8; 4] = [
        (len / 0x100_0000) as u8,
        (len / 0x1_0000 % 0x100) as u8,
        (len / 0x100 % 0x100) as u8,
        (len % 0x100) as u8,
    ];
    proof {
        lemma_be_value_of_bytes(len);
        assert(header@ =~= be_bytes(len));
    }
    header
}

/// Reads the length that a header declares.
pub fn decode_header(header: &[u8; 4]) -> (declared: u32)
    ensures
        declared == be_value(header@),
        be_bytes(declared) == header@,
{
    proof {
        lemma_be_bytes_of_value(header@);
    }
    let high: u32 = header[0] as u32 * 0x100_0000 + header[1] as u32 * 0x1_0000;
    let low: u32 = header[2] as u32 * 0x100 + header[3] as u32;
    high + low
}

/// Holds a declared length against the caller's budget, before anything is
/// set aside for the payload: the length to read, or `OversizedMessage`.
pub fn payload_len(declared: u32, max_size: usize) -> (r: Result<usize, IpcError>)
    ensures
        r == if within_budget(declared as nat, max_size as nat) {
            Ok::<usize, IpcError>(declared as usize)
        } else {
            Err::<usize, IpcError>(IpcError::OversizedMessage { declared, max_size })
        },
{
    if max_size >= HEADER_LEN && declared as u64 <= (max_size - HEADER_LEN) as u64 {
        Ok(declared as usize)
    } else {
        Err(IpcError::OversizedMessage { declared, max_size })
    }
}

/// A payload fits a frame when its length can be written in the header
/// and the frame can be addressed.
pub open spec fn frameable(len: nat) -> bool {
    len <= u32::MAX && len + 4 <= usize::MAX
}

/// The length that the header of a payload of `len` bytes declares, or
/// the refusal of a payload that is too long for a frame.
pub fn declared_len(len: usize) -> (r: Result<u32, IpcError>)
    ensures
        r == if frameable(len as nat) {
            Ok::<u32, IpcError>(len as u32)
        } else {
            Err::<u32, IpcError>(IpcError::PayloadTooLong { len })
        },
{
    if len as u64 > u32::MAX as u64 || len > usize::MAX - HEADER_LEN {
        Err(IpcError::PayloadTooLong { len })
    } else {
        Ok(len as u32)
    }
}

/// Frames a payload for the wire, or refuses one that is too long for a
/// frame.
pub fn encode_frame(payload: &[u8]) -> (frame: Result<Vec<u8>, IpcError>)
    ensures
        match frame {
            Ok(bytes) => frameable(payload@.len()) && bytes@ == framed(payload@),
            Err(error) => !frameable(payload@.len()) && error == (IpcError::PayloadTooLong {
                len: payload@.len() as usize,
            }),
        },
{
    let declared: u32 = match declared_len(payload.len()) {
        Ok(declared) => declared,
        Err(error) => {
            return Err(error);
        },
    };
    let header: [u8; 4] = encode_header(declared);
    let mut bytes: Vec<u8> = Vec::with_capacity(payload.len() + HEADER_LEN);
    bytes.extend_from_slice(header.as_slice());
    bytes.extend_from_slice(payload);
    assert(bytes@ =~= framed(payload@));
    Ok(bytes)
}

/// Takes the payload out of all that one connection carried.
pub fn decode_frame(wire: &[u8], max_size: usize) -> (r: Result<Vec<u8>, IpcError>)
    ensures
        match r {
            Ok(payload) => parsed(wire@, max_size as nat) == Ok::<Seq<u8>, IpcError>(payload@),
            Err(error) => parsed(wire@, max_size as nat) == Err::<Seq<u8>, IpcError>(error),
        },
{
    if wire.len() < HEADER_LEN {
        return Err(IpcError::TruncatedMessage);
    }
    let header: [u8; 4] = [wire[0], wire[1], wire[2], wire[3]];
    let declared: u32 = decode_header(&header);
    assert(be_value(header@) == be_value(wire@));
    let len: usize = match payload_len(declared, max_size) {
        Ok(len) => len,
        Err(error) => {
            return Err(error);
        },
    };
    if wire.len() - HEADER_LEN < len {
        return Err(IpcError::TruncatedMessage);
    }
    let payload: Vec<u8> = slice_to_vec(slice_subrange(wire, HEADER_LEN, HEADER_LEN + len));
    Ok(payload)
}

} // verus!
