//! What can go wrong while metadata is read or written.

use crate::stream::IoError;
use vstd::prelude::*;

verus! {

/// What was found wrong with data on the device, or with a request.
#[derive(Clone, Copy, Debug, PartialEq, Eq, Structural)]
pub enum Invalid {
    /// The checksum of a static header does not match its contents.
    HeaderCrc,
    /// The static header has a version that is not known; the version found.
    SigblockVersion(u8),
    /// Both copies of the static header carry the magic number and neither
    /// is usable.
    NoValidSigblock,
    /// The size of the metadata area is not a multiple of the number of
    /// regions; the size in sectors.
    MdaSizeNotDivisible(u64),
    /// The metadata area is smaller than the minimum; the size in sectors.
    MdaSizeTooSmall(u64),
    /// The metadata area would reach behind what can be addressed; the size
    /// in sectors.
    MdaSizeTooLarge(u64),
    /// The checksum of a region header does not match its contents.
    RegionHeaderCrc,
    /// The region header has a version that is not known; the version found.
    RegionHeaderVersion(u8),
    /// The metadata has a version that is not known; the version found.
    MetadataVersion(u8),
    /// The metadata does not fit into a region behind the region header.
    MetadataTooLong { used: u64, available: u64 },
    /// The time of the last update lies before the epoch; the seconds as
    /// stored.
    TimestampOutOfRange(u64),
    /// The checksum of the metadata does not match what was read.
    RegionDataCrc,
    /// The metadata on the device is as new as what was to be saved, or
    /// newer.
    OverwritingNewer,
}

impl Invalid {
    /// What is wrong, in words.
    pub open spec fn description(self) -> Seq<char> {
        match self {
            Invalid::HeaderCrc => "header CRC invalid"@,
            Invalid::SigblockVersion(_) => "unknown sigblock version"@,
            Invalid::NoValidSigblock => "no valid sigblock"@,
            Invalid::MdaSizeNotDivisible(_) => "MDA size is not a multiple of the regions"@,
            Invalid::MdaSizeTooSmall(_) => "MDA size is less than the minimum"@,
            Invalid::MdaSizeTooLarge(_) => "MDA size cannot be addressed"@,
            Invalid::RegionHeaderCrc => "MDA region header CRC"@,
            Invalid::RegionHeaderVersion(_) => "unknown region header version"@,
            Invalid::MetadataVersion(_) => "unknown metadata version"@,
            Invalid::MetadataTooLong { .. } => "metadata length exceeds region"@,
            Invalid::TimestampOutOfRange(_) => "time of last update out of range"@,
            Invalid::RegionDataCrc => "MDA region data CRC"@,
            Invalid::OverwritingNewer => "overwriting newer data"@,
        }
    }

    /// What is wrong, in words.
    pub fn message(&self) -> (text: &'static str)
        ensures
            text@ == self.description(),
    {
        match self {
            Invalid::HeaderCrc => "header CRC invalid",
            Invalid::SigblockVersion(_) => "unknown sigblock version",
            Invalid::NoValidSigblock => "no valid sigblock",
            Invalid::MdaSizeNotDivisible(_) => "MDA size is not a multiple of the regions",
            Invalid::MdaSizeTooSmall(_) => "MDA size is less than the minimum",
            Invalid::MdaSizeTooLarge(_) => "MDA size cannot be addressed",
            Invalid::RegionHeaderCrc => "MDA region header CRC",
            Invalid::RegionHeaderVersion(_) => "unknown region header version",
            Invalid::MetadataVersion(_) => "unknown metadata version",
            Invalid::MetadataTooLong { .. } => "metadata length exceeds region",
            Invalid::TimestampOutOfRange(_) => "time of last update out of range",
            Invalid::RegionDataCrc => "MDA region data CRC",
            Invalid::OverwritingNewer => "overwriting newer data",
        }
    }
}

/// Failure of an operation on the block device area.
#[derive(Clone, Copy, Debug, PartialEq, Eq, Structural)]
pub enum MetadataError {
    /// The stream failed.
    Io(IoError),
    /// A UUID in the static header is not UTF-8.
    Utf8,
    /// A UUID in the static header is not 32 hexadecimal digits.
    Uuid,
    /// Something did not pass validation.
    Invalid(Invalid),
}

pub type MetadataResult<T> = Result<T, MetadataError>;

} // verus!
