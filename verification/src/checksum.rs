//! The CRC-32C checksum that guards every header and payload.

use crc::{Crc, CRC_32_ISCSI};
use vstd::prelude::*;

verus! {

/// The CRC-32 of `data` with the Castagnoli polynomial, as the `crc` crate
/// computes it.
pub uninterp spec fn crc32c(data: Seq<u8>) -> u32;

/// `Crc::<u32>::checksum` of the crc crate for the algorithm `CRC_32_ISCSI`:
/// the result depends on the bytes alone.
#[verifier::external_body]
pub(crate) fn checksum_castagnoli(data: &[u8]) -> (sum: u32)
    ensures
        sum == crc32c(data@),
{
    Crc::<u32>::new(&CRC_32_ISCSI).checksum(data)
}

} // verus!
