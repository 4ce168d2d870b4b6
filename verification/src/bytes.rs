//! Primitive reads from the in-memory byte source: single bytes, big-endian
//! integers, exact byte runs, and chunk-tag validation.

use vstd::prelude::*;

use crate::types::FormatError;
use crate::types::MidiError;

verus! {

/// The four tag bytes of the file header chunk, "MThd", packed big-endian.
pub const MTHD_TAG: u32 = 0x4D546864;

/// The four tag bytes of a track chunk, "MTrk", packed big-endian.
pub const MTRK_TAG: u32 = 0x4D54726B;

/// The 16-bit big-endian integer at `pos`.
pub open spec fn spec_u16_be(s: Seq<u8>, pos: int) -> u16 {
    ((s[pos] as int) * 0x100 + (s[pos + 1] as int)) as u16
}

/// The 32-bit big-endian integer at `pos`.
pub open spec fn spec_u32_be(s: Seq<u8>, pos: int) -> u32 {
    ((s[pos] as int) * 0x1000000 + (s[pos + 1] as int) * 0x10000 + (s[pos + 2] as int) * 0x100
        + (s[pos + 3] as int)) as u32
}

/// Read the byte at `pos`, or fail with an I/O-exhaustion error.
pub fn read_u8_at(bytes: &Vec<u8>, pos: usize) -> (r: Result<u8, MidiError>)
    ensures
        match r {
            Ok(b) => pos < bytes@.len() && b == bytes@[pos as int],
            Err(e) => e == MidiError::Io && pos >= bytes@.len(),
        },
{
    if pos < bytes.len() {
        Ok(bytes[pos])
    } else {
        Err(MidiError::Io)
    }
}

/// Read the 16-bit big-endian integer at `pos`.
pub fn read_u16_be(bytes: &Vec<u8>, pos: usize) -> (r: Result<u16, MidiError>)
    ensures
        match r {
            Ok(v) => pos + 2 <= bytes@.len() && v == spec_u16_be(bytes@, pos as int),
            Err(e) => e == MidiError::Io && pos + 2 > bytes@.len(),
        },
{
    if pos < bytes.len() && bytes.len() - pos >= 2 {
        let v: u16 = (bytes[pos] as u16) * 0x100 + (bytes[pos + 1] as u16);
        Ok(v)
    } else {
        Err(MidiError::Io)
    }
}

/// Read the 32-bit big-endian integer at `pos`.
pub fn read_u32_be(bytes: &Vec<u8>, pos: usize) -> (r: Result<u32, MidiError>)
    ensures
        match r {
            Ok(v) => pos + 4 <= bytes@.len() && v == spec_u32_be(bytes@, pos as int),
            Err(e) => e == MidiError::Io && pos + 4 > bytes@.len(),
        },
{
    if pos < bytes.len() && bytes.len() - pos >= 4 {
        let v: u32 = (bytes[pos] as u32) * 0x1000000 + (bytes[pos + 1] as u32) * 0x10000 + (bytes[
            pos + 2
        ] as u32) * 0x100 + (bytes[pos + 3] as u32);
        Ok(v)
    } else {
        Err(MidiError::Io)
    }
}

/// Copy exactly `n` bytes starting at `pos`, or fail with an I/O error.
pub fn read_bytes(bytes: &Vec<u8>, pos: usize, n: usize) -> (r: Result<Vec<u8>, MidiError>)
    ensures
        match r {
            Ok(d) => pos + n <= bytes@.len() && d@ == bytes@.subrange(pos as int, pos + n),
            Err(e) => e == MidiError::Io && pos + n > bytes@.len(),
        },
{
    if pos <= bytes.len() && bytes.len() - pos >= n {
        let mut d: Vec<u8> = Vec::new();
        let mut i: usize = 0;
        while i < n
            invariant
                i <= n,
                pos + n <= bytes@.len(),
                pos + n <= usize::MAX,
                d@ == bytes@.subrange(pos as int, pos + i),
            decreases n - i,
        {
            d.push(bytes[pos + i]);
            i = i + 1;
            proof {
                assert(d@ =~= bytes@.subrange(pos as int, pos + i));
            }
        }
        Ok(d)
    } else {
        Err(MidiError::Io)
    }
}

/// What validating a chunk tag at `pos` yields: the position after the tag,
/// or the error that identifies the expected and the found tag.
pub open spec fn spec_chunk_header(s: Seq<u8>, pos: int, expected: u32) -> Result<int, MidiError> {
    if pos + 4 > s.len() {
        Err(MidiError::Io)
    } else if spec_u32_be(s, pos) != expected {
        Err(
            MidiError::Format(
                FormatError::ChunkTag { expected, found: spec_u32_be(s, pos) },
            ),
        )
    } else {
        Ok(pos + 4)
    }
}

/// Check that the four bytes at `pos` are the expected chunk tag.
pub fn validate_chunk_header(bytes: &Vec<u8>, pos: usize, expected: u32) -> (r: Result<
    usize,
    MidiError,
>)
    ensures
        match r {
            Ok(p) => spec_chunk_header(bytes@, pos as int, expected) == Ok::<int, MidiError>(
                p as int,
            ) && p == pos + 4,
            Err(e) => spec_chunk_header(bytes@, pos as int, expected) == Err::<int, MidiError>(e),
        },
{
    let found = match read_u32_be(bytes, pos) {
        Ok(v) => v,
        Err(e) => {
            return Err(e);
        },
    };
    if found != expected {
        return Err(MidiError::Format(FormatError::ChunkTag { expected, found }));
    }
    proof {
        vstd::std_specs::vec::axiom_spec_len(bytes);
    }
    Ok(pos + 4)
}

} // verus!
