//! Byte-level primitives of the codec: fixed-width little-endian fields,
//! booleans, UUID values, and a position-tracking reader over a byte buffer.
//!
//! Frame-level routines (strings, nullable values, lists) live in [`util`];
//! protocol-specific aggregates live in [`custom`].

use vstd::prelude::*;
use vstd::bytes::{
    spec_u16_from_le_bytes, spec_u16_to_le_bytes, spec_u32_from_le_bytes, spec_u32_to_le_bytes,
    spec_u64_from_le_bytes, spec_u64_to_le_bytes, u16_from_le_bytes, u16_to_le_bytes,
    u32_from_le_bytes, u32_to_le_bytes, u64_from_le_bytes, u64_to_le_bytes,
};
use vstd::slice::slice_subrange;
use crate::messaging::error::DecodeError;

pub mod custom;
pub mod util;

verus! {

/// Wire size of an encoded UUID: one not-null marker byte plus two 8-byte
/// halves.
pub const UUID_SIZE: usize = 17;

/// A 128-bit universally unique identifier, held as its most- and
/// least-significant halves.
///
/// The wire protocol reads and writes a UUID purely through these two
/// halves, so the crate models it as two plain integers.
#[derive(Clone, Copy, PartialEq, Eq, Structural, Hash, Debug)]
pub struct Uuid {
    pub msb: u64,
    pub lsb: u64,
}

// --- signed values as their two's-complement unsigned images ---

/// Two's-complement 32-bit unsigned image of a signed value.
pub open spec fn spec_u32_of_i32(v: i32) -> u32 {
    if v >= 0 {
        v as u32
    } else {
        (v + 0x1_0000_0000) as u32
    }
}

/// Signed value of a two's-complement 32-bit unsigned image.
pub open spec fn spec_i32_of_u32(v: u32) -> i32 {
    if v < 0x8000_0000 {
        v as i32
    } else {
        (v - 0x1_0000_0000) as i32
    }
}

/// Two's-complement 64-bit unsigned image of a signed value.
pub open spec fn spec_u64_of_i64(v: i64) -> u64 {
    if v >= 0 {
        v as u64
    } else {
        (v + 0x1_0000_0000_0000_0000) as u64
    }
}

/// Signed value of a two's-complement 64-bit unsigned image.
pub open spec fn spec_i64_of_u64(v: u64) -> i64 {
    if v < 0x8000_0000_0000_0000 {
        v as i64
    } else {
        (v - 0x1_0000_0000_0000_0000) as i64
    }
}

/// Round trip for every fixed-width primitive of the codec: reading a
/// field where it was written yields the value back, for unsigned and
/// signed widths and for booleans alike.
pub proof fn lemma_primitive_round_trips(a: u16, b: u32, c: u64, d: i32, e: i64, v: bool)
    ensures
        spec_u16_from_le_bytes(spec_u16_to_le_bytes(a)) == a,
        spec_u32_from_le_bytes(spec_u32_to_le_bytes(b)) == b,
        spec_u64_from_le_bytes(spec_u64_to_le_bytes(c)) == c,
        spec_i32_of_u32(spec_u32_from_le_bytes(spec_i32_to_le_bytes(d))) == d,
        spec_i64_of_u64(spec_u64_from_le_bytes(spec_i64_to_le_bytes(e))) == e,
        (spec_bool_to_byte(v) != 0) == v,
{
    vstd::bytes::lemma_auto_spec_u16_to_from_le_bytes();
    vstd::bytes::lemma_auto_spec_u32_to_from_le_bytes();
    vstd::bytes::lemma_auto_spec_u64_to_from_le_bytes();
    assert(spec_u16_to_le_bytes(a).len() == 2);
    assert(spec_u32_to_le_bytes(b).len() == 4);
    assert(spec_u64_to_le_bytes(c).len() == 8);
    assert(spec_u32_to_le_bytes(spec_u32_of_i32(d)).len() == 4);
    assert(spec_u64_to_le_bytes(spec_u64_of_i64(e)).len() == 8);
    lemma_i32_u32_round_trip(d);
    lemma_i64_u64_round_trip(e);
}

/// The two 32-bit conversions invert each other.
pub proof fn lemma_i32_u32_round_trip(v: i32)
    ensures
        spec_i32_of_u32(spec_u32_of_i32(v)) == v,
{
}

/// The two 64-bit conversions invert each other.
pub proof fn lemma_i64_u64_round_trip(v: i64)
    ensures
        spec_i64_of_u64(spec_u64_of_i64(v)) == v,
{
}

pub fn u32_from_i32(v: i32) -> (r: u32)
    ensures
        r == spec_u32_of_i32(v),
{
    if v >= 0 {
        v as u32
    } else {
        ((v as i64) + 0x1_0000_0000) as u32
    }
}

pub fn i32_from_u32(v: u32) -> (r: i32)
    ensures
        r == spec_i32_of_u32(v),
{
    if v < 0x8000_0000 {
        v as i32
    } else {
        ((v as i64) - 0x1_0000_0000) as i32
    }
}

pub fn u64_from_i64(v: i64) -> (r: u64)
    ensures
        r == spec_u64_of_i64(v),
{
    if v >= 0 {
        v as u64
    } else {
        ((v as i128) + 0x1_0000_0000_0000_0000) as u64
    }
}

pub fn i64_from_u64(v: u64) -> (r: i64)
    ensures
        r == spec_i64_of_u64(v),
{
    if v < 0x8000_0000_0000_0000 {
        v as i64
    } else {
        ((v as i128) - 0x1_0000_0000_0000_0000) as i64
    }
}

// --- little-endian field encodings ---

/// Little-endian bytes of a signed 32-bit field.
pub open spec fn spec_i32_to_le_bytes(v: i32) -> Seq<u8> {
    spec_u32_to_le_bytes(spec_u32_of_i32(v))
}

/// Little-endian bytes of a signed 64-bit field.
pub open spec fn spec_i64_to_le_bytes(v: i64) -> Seq<u8> {
    spec_u64_to_le_bytes(spec_u64_of_i64(v))
}

/// Single-byte encoding of a boolean.
pub open spec fn spec_bool_to_byte(v: bool) -> u8 {
    if v {
        1
    } else {
        0
    }
}

/// Wire bytes of a UUID: a zero not-null marker, then the most-significant
/// half, then the least-significant half, each half little-endian.
pub open spec fn spec_uuid_to_bytes(u: Uuid) -> Seq<u8> {
    seq![0u8] + spec_u64_to_le_bytes(u.msb) + spec_u64_to_le_bytes(u.lsb)
}

// --- appending fixed-width fields to a buffer ---

pub fn write_u8(buf: &mut Vec<u8>, v: u8)
    ensures
        final(buf)@ == old(buf)@ + seq![v],
{
    buf.push(v);
}

pub fn write_bool(buf: &mut Vec<u8>, v: bool)
    ensures
        final(buf)@ == old(buf)@ + seq![spec_bool_to_byte(v)],
{
    buf.push(if v {
        1
    } else {
        0
    });
}

pub fn write_u16_le(buf: &mut Vec<u8>, v: u16)
    ensures
        final(buf)@ == old(buf)@ + spec_u16_to_le_bytes(v),
{
    let mut bytes = u16_to_le_bytes(v);
    buf.append(&mut bytes);
}

pub fn write_u32_le(buf: &mut Vec<u8>, v: u32)
    ensures
        final(buf)@ == old(buf)@ + spec_u32_to_le_bytes(v),
{
    let mut bytes = u32_to_le_bytes(v);
    buf.append(&mut bytes);
}

pub fn write_u64_le(buf: &mut Vec<u8>, v: u64)
    ensures
        final(buf)@ == old(buf)@ + spec_u64_to_le_bytes(v),
{
    let mut bytes = u64_to_le_bytes(v);
    buf.append(&mut bytes);
}

pub fn write_i32_le(buf: &mut Vec<u8>, v: i32)
    ensures
        final(buf)@ == old(buf)@ + spec_i32_to_le_bytes(v),
{
    write_u32_le(buf, u32_from_i32(v));
}

pub fn write_i64_le(buf: &mut Vec<u8>, v: i64)
    ensures
        final(buf)@ == old(buf)@ + spec_i64_to_le_bytes(v),
{
    write_u64_le(buf, u64_from_i64(v));
}

// --- reading fixed-width fields out of a buffer ---

/// A cursor over a byte buffer, advanced by each fixed-width read.
///
/// Every read either consumes exactly the bytes of one field or fails with
/// `DecodeError::Truncated` leaving the cursor unchanged.
pub struct ByteReader {
    pub bytes: Vec<u8>,
    pub pos: usize,
}

impl ByteReader {
    /// The cursor never passes the end of the buffer.
    pub open spec fn wf(&self) -> bool {
        self.pos <= self.bytes@.len()
    }

    /// The bytes not yet consumed.
    pub open spec fn remaining_bytes(&self) -> Seq<u8> {
        self.bytes@.skip(self.pos as int)
    }

    pub fn new(bytes: Vec<u8>) -> (r: ByteReader)
        ensures
            r.bytes@ == bytes@,
            r.pos == 0,
            r.wf(),
    {
        ByteReader { bytes, pos: 0 }
    }

    pub fn remaining(&self) -> (r: usize)
        requires
            self.wf(),
        ensures
            r == self.remaining_bytes().len(),
    {
        self.bytes.len() - self.pos
    }

    /// Skips `n` bytes, or fails without moving when fewer remain.
    pub fn advance(&mut self, n: usize) -> (r: Result<(), DecodeError>)
        requires
            old(self).wf(),
        ensures
            final(self).bytes@ == old(self).bytes@,
            final(self).wf(),
            if old(self).remaining_bytes().len() >= n {
                r is Ok && final(self).pos == old(self).pos + n
            } else {
                r == Result::<(), DecodeError>::Err(DecodeError::Truncated) && final(self).pos == old(self).pos
            },
    {
        if self.bytes.len() - self.pos >= n {
            self.pos = self.pos + n;
            Ok(())
        } else {
            Err(DecodeError::Truncated)
        }
    }

    pub fn read_u8(&mut self) -> (r: Result<u8, DecodeError>)
        requires
            old(self).wf(),
        ensures
            final(self).bytes@ == old(self).bytes@,
            final(self).wf(),
            if old(self).remaining_bytes().len() >= 1 {
                r == Result::<u8, DecodeError>::Ok(old(self).bytes@[old(self).pos as int])
                    && final(self).pos == old(self).pos + 1
            } else {
                r == Result::<u8, DecodeError>::Err(DecodeError::Truncated) && final(self).pos == old(self).pos
            },
    {
        if self.bytes.len() - self.pos >= 1 {
            let b = self.bytes[self.pos];
            self.pos = self.pos + 1;
            Ok(b)
        } else {
            Err(DecodeError::Truncated)
        }
    }

    /// Reads one byte as a boolean; any non-zero byte counts as true.
    pub fn read_bool(&mut self) -> (r: Result<bool, DecodeError>)
        requires
            old(self).wf(),
        ensures
            final(self).bytes@ == old(self).bytes@,
            final(self).wf(),
            if old(self).remaining_bytes().len() >= 1 {
                r == Result::<bool, DecodeError>::Ok(old(self).bytes@[old(self).pos as int] != 0)
                    && final(self).pos == old(self).pos + 1
            } else {
                r == Result::<bool, DecodeError>::Err(DecodeError::Truncated) && final(self).pos == old(self).pos
            },
    {
        match self.read_u8() {
            Ok(b) => Ok(b != 0),
            Err(e) => Err(e),
        }
    }

    pub fn read_u16_le(&mut self) -> (r: Result<u16, DecodeError>)
        requires
            old(self).wf(),
        ensures
            final(self).bytes@ == old(self).bytes@,
            final(self).wf(),
            if old(self).remaining_bytes().len() >= 2 {
                r == Result::<u16, DecodeError>::Ok(
                    spec_u16_from_le_bytes(
                        old(self).bytes@.subrange(old(self).pos as int, old(self).pos + 2),
                    ),
                ) && final(self).pos == old(self).pos + 2
            } else {
                r == Result::<u16, DecodeError>::Err(DecodeError::Truncated) && final(self).pos == old(self).pos
            },
    {
        if self.bytes.len() - self.pos >= 2 {
            let s = slice_subrange(self.bytes.as_slice(), self.pos, self.pos + 2);
            let v = u16_from_le_bytes(s);
            self.pos = self.pos + 2;
            Ok(v)
        } else {
            Err(DecodeError::Truncated)
        }
    }

    pub fn read_u32_le(&mut self) -> (r: Result<u32, DecodeError>)
        requires
            old(self).wf(),
        ensures
            final(self).bytes@ == old(self).bytes@,
            final(self).wf(),
            if old(self).remaining_bytes().len() >= 4 {
                r == Result::<u32, DecodeError>::Ok(
                    spec_u32_from_le_bytes(
                        old(self).bytes@.subrange(old(self).pos as int, old(self).pos + 4),
                    ),
                ) && final(self).pos == old(self).pos + 4
            } else {
                r == Result::<u32, DecodeError>::Err(DecodeError::Truncated) && final(self).pos == old(self).pos
            },
    {
        if self.bytes.len() - self.pos >= 4 {
            let s = slice_subrange(self.bytes.as_slice(), self.pos, self.pos + 4);
            let v = u32_from_le_bytes(s);
            self.pos = self.pos + 4;
            Ok(v)
        } else {
            Err(DecodeError::Truncated)
        }
    }

    pub fn read_u64_le(&mut self) -> (r: Result<u64, DecodeError>)
        requires
            old(self).wf(),
        ensures
            final(self).bytes@ == old(self).bytes@,
            final(self).wf(),
            if old(self).remaining_bytes().len() >= 8 {
                r == Result::<u64, DecodeError>::Ok(
                    spec_u64_from_le_bytes(
                        old(self).bytes@.subrange(old(self).pos as int, old(self).pos + 8),
                    ),
                ) && final(self).pos == old(self).pos + 8
            } else {
                r == Result::<u64, DecodeError>::Err(DecodeError::Truncated) && final(self).pos == old(self).pos
            },
    {
        if self.bytes.len() - self.pos >= 8 {
            let s = slice_subrange(self.bytes.as_slice(), self.pos, self.pos + 8);
            let v = u64_from_le_bytes(s);
            self.pos = self.pos + 8;
            Ok(v)
        } else {
            Err(DecodeError::Truncated)
        }
    }

    pub fn read_i32_le(&mut self) -> (r: Result<i32, DecodeError>)
        requires
            old(self).wf(),
        ensures
            final(self).bytes@ == old(self).bytes@,
            final(self).wf(),
            if old(self).remaining_bytes().len() >= 4 {
                r == Result::<i32, DecodeError>::Ok(
                    spec_i32_of_u32(
                        spec_u32_from_le_bytes(
                            old(self).bytes@.subrange(old(self).pos as int, old(self).pos + 4),
                        ),
                    ),
                ) && final(self).pos == old(self).pos + 4
            } else {
                r == Result::<i32, DecodeError>::Err(DecodeError::Truncated) && final(self).pos == old(self).pos
            },
    {
        match self.read_u32_le() {
            Ok(v) => Ok(i32_from_u32(v)),
            Err(e) => Err(e),
        }
    }

    pub fn read_i64_le(&mut self) -> (r: Result<i64, DecodeError>)
        requires
            old(self).wf(),
        ensures
            final(self).bytes@ == old(self).bytes@,
            final(self).wf(),
            if old(self).remaining_bytes().len() >= 8 {
                r == Result::<i64, DecodeError>::Ok(
                    spec_i64_of_u64(
                        spec_u64_from_le_bytes(
                            old(self).bytes@.subrange(old(self).pos as int, old(self).pos + 8),
                        ),
                    ),
                ) && final(self).pos == old(self).pos + 8
            } else {
                r == Result::<i64, DecodeError>::Err(DecodeError::Truncated) && final(self).pos == old(self).pos
            },
    {
        match self.read_u64_le() {
            Ok(v) => Ok(i64_from_u64(v)),
            Err(e) => Err(e),
        }
    }
}

} // verus!
