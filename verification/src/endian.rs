//! Little-endian integers, as the `byteorder` crate reads and writes them.

use byteorder::{ByteOrder, LittleEndian};
use vstd::bytes::{
    spec_u32_from_le_bytes, spec_u32_to_le_bytes, spec_u64_from_le_bytes, spec_u64_to_le_bytes,
};
use vstd::prelude::*;

verus! {

/// `LittleEndian::read_u32` of byteorder: the number that the first four
/// bytes of `buf` hold, lowest byte first. It panics on a shorter buffer.
#[verifier::external_body]
pub(crate) fn read_u32(buf: &[u8]) -> (n: u32)
    requires
        buf@.len() >= 4,
    ensures
        n == spec_u32_from_le_bytes(buf@.subrange(0, 4)),
{
    LittleEndian::read_u32(buf)
}

/// `LittleEndian::read_u64` of byteorder: the number that the first eight
/// bytes of `buf` hold, lowest byte first. It panics on a shorter buffer.
#[verifier::external_body]
pub(crate) fn read_u64(buf: &[u8]) -> (n: u64)
    requires
        buf@.len() >= 8,
    ensures
        n == spec_u64_from_le_bytes(buf@.subrange(0, 8)),
{
    LittleEndian::read_u64(buf)
}

/// `LittleEndian::write_u32` of byteorder, on a buffer of four bytes: the
/// bytes of `n`, lowest first.
#[verifier::external_body]
pub(crate) fn u32_bytes(n: u32) -> (out: [u8; 4])
    ensures
        out@ == spec_u32_to_le_bytes(n),
{
    let mut out = [0u8; 4];
    LittleEndian::write_u32(&mut out, n);
    out
}

/// `LittleEndian::write_u64` of byteorder, on a buffer of eight bytes: the
/// bytes of `n`, lowest first.
#[verifier::external_body]
pub(crate) fn u64_bytes(n: u64) -> (out: [u8; 8])
    ensures
        out@ == spec_u64_to_le_bytes(n),
{
    let mut out = [0u8; 8];
    LittleEndian::write_u64(&mut out, n);
    out
}

} // verus!
