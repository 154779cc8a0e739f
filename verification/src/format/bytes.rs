//! Fixed-width little-endian integers and UTF-8 text, as bytes.

use byteorder::{ByteOrder, LittleEndian};
use vstd::bytes::{
    spec_u16_from_le_bytes, spec_u16_to_le_bytes, spec_u32_from_le_bytes, spec_u32_to_le_bytes,
    spec_u64_from_le_bytes, spec_u64_to_le_bytes,
};
use vstd::prelude::*;
use vstd::utf8::{decode_utf8, valid_utf8};

verus! {

/// `byteorder::LittleEndian::read_u16`: the 16-bit integer that the first two
/// bytes of `bytes` spell, least significant byte first. It panics on a
/// shorter slice, which `requires` rules out.
#[verifier::external_body]
pub(crate) fn le_read_u16(bytes: &[u8]) -> (value: u16)
    requires
        bytes@.len() >= 2,
    ensures
        value == spec_u16_from_le_bytes(bytes@.subrange(0, 2)),
{
    LittleEndian::read_u16(bytes)
}

/// `byteorder::LittleEndian::read_u32`: the 32-bit integer that the first
/// four bytes of `bytes` spell, least significant byte first. It panics on a
/// shorter slice, which `requires` rules out.
#[verifier::external_body]
pub(crate) fn le_read_u32(bytes: &[u8]) -> (value: u32)
    requires
        bytes@.len() >= 4,
    ensures
        value == spec_u32_from_le_bytes(bytes@.subrange(0, 4)),
{
    LittleEndian::read_u32(bytes)
}

/// `byteorder::LittleEndian::read_u64`: the 64-bit integer that the first
/// eight bytes of `bytes` spell, least significant byte first. It panics on a
/// shorter slice, which `requires` rules out.
#[verifier::external_body]
pub(crate) fn le_read_u64(bytes: &[u8]) -> (value: u64)
    requires
        bytes@.len() >= 8,
    ensures
        value == spec_u64_from_le_bytes(bytes@.subrange(0, 8)),
{
    LittleEndian::read_u64(bytes)
}

/// `byteorder::LittleEndian::read_i64`: what `read_u64` gives, reinterpreted
/// as a two's complement signed integer. It panics on a slice of fewer than
/// eight bytes, which `requires` rules out.
#[verifier::external_body]
pub(crate) fn le_read_i64(bytes: &[u8]) -> (value: i64)
    requires
        bytes@.len() >= 8,
    ensures
        value == spec_u64_from_le_bytes(bytes@.subrange(0, 8)) as i64,
{
    LittleEndian::read_i64(bytes)
}

/// `byteorder::LittleEndian::write_u16` into a buffer of two bytes: the
/// bytes of `value`, least significant first.
#[verifier::external_body]
pub(crate) fn le_bytes_u16(value: u16) -> (bytes: [u8; 2])
    ensures
        bytes@ == spec_u16_to_le_bytes(value),
{
    let mut bytes = [0u8; 2];
    LittleEndian::write_u16(&mut bytes, value);
    bytes
}

/// `byteorder::LittleEndian::write_u32` into a buffer of four bytes: the
/// bytes of `value`, least significant first.
#[verifier::external_body]
pub(crate) fn le_bytes_u32(value: u32) -> (bytes: [u8; 4])
    ensures
        bytes@ == spec_u32_to_le_bytes(value),
{
    let mut bytes = [0u8; 4];
    LittleEndian::write_u32(&mut bytes, value);
    bytes
}

/// `byteorder::LittleEndian::write_u64` into a buffer of eight bytes: the
/// bytes of `value`, least significant first.
#[verifier::external_body]
pub(crate) fn le_bytes_u64(value: u64) -> (bytes: [u8; 8])
    ensures
        bytes@ == spec_u64_to_le_bytes(value),
{
    let mut bytes = [0u8; 8];
    LittleEndian::write_u64(&mut bytes, value);
    bytes
}

/// `byteorder::LittleEndian::write_i64` into a buffer of eight bytes: the
/// bytes of the two's complement form of `value`, least significant first.
#[verifier::external_body]
pub(crate) fn le_bytes_i64(value: i64) -> (bytes: [u8; 8])
    ensures
        bytes@ == spec_u64_to_le_bytes(value as u64),
{
    let mut bytes = [0u8; 8];
    LittleEndian::write_i64(&mut bytes, value);
    bytes
}

/// `String::from_utf8`: the text that `bytes` encode, and nothing exactly
/// when they are not well-formed UTF-8.
#[verifier::external_body]
pub(crate) fn text_from_utf8(bytes: Vec<u8>) -> (text: Option<String>)
    ensures
        text is Some <==> valid_utf8(bytes@),
        text matches Some(t) ==> t@ == decode_utf8(bytes@),
{
    String::from_utf8(bytes).ok()
}

/// Appends `bytes` to `out`.
pub fn append_bytes(out: &mut Vec<u8>, bytes: &[u8])
    ensures
        final(out)@ == old(out)@ + bytes@,
{
    let mut i: usize = 0;
    while i < bytes.len()
        invariant
            i <= bytes@.len(),
            out@ == old(out)@ + bytes@.subrange(0, i as int),
        decreases bytes@.len() - i,
    {
        out.push(bytes[i]);
        i += 1;
        assert(bytes@.subrange(0, i as int) =~= bytes@.subrange(0, i - 1).push(bytes@[i - 1]));
    }
    assert(bytes@.subrange(0, i as int) =~= bytes@);
}

/// The bytes of `buf` from `from` up to `to`, copied out.
pub fn copy_range(buf: &[u8], from: usize, to: usize) -> (out: Vec<u8>)
    requires
        from <= to <= buf@.len(),
    ensures
        out@ == buf@.subrange(from as int, to as int),
{
    let mut out: Vec<u8> = Vec::new();
    let mut i: usize = from;
    while i < to
        invariant
            from <= i <= to <= buf@.len(),
            out@ == buf@.subrange(from as int, i as int),
        decreases to - i,
    {
        out.push(buf[i]);
        i += 1;
        assert(buf@.subrange(from as int, i as int) =~= buf@.subrange(from as int, i - 1).push(
            buf@[i - 1],
        ));
    }
    out
}

} // verus!
