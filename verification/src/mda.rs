//! The metadata area: four regions of equal size, two logical slots with two
//! copies each, written in turn and read back newest first.

use crate::buffer::put;
use crate::checksum::{checksum_castagnoli, crc32c};
use crate::endian::{read_u32, read_u64, u32_bytes, u64_bytes};
use crate::error::{Invalid, MetadataError, MetadataResult};
use crate::stream::{
    flushed_once, overwrite, read_at, read_outcome, write_at, write_outcome, ByteStream, IoError,
};
use vstd::bytes::{
    lemma_auto_spec_u32_to_from_le_bytes, lemma_auto_spec_u64_to_from_le_bytes,
    spec_u32_from_le_bytes, spec_u32_to_le_bytes, spec_u64_from_le_bytes, spec_u64_to_le_bytes,
};
use vstd::prelude::*;

verus! {

/// Number of bytes in the header of a region.
pub const MDA_REGION_HDR_SIZE: u64 = 32;

/// Number of regions in the metadata area.
pub const NUM_MDA_REGIONS: u64 = 4;

/// Number of regions that hold distinct data; the others are their copies.
pub const NUM_PRIMARY_MDA_REGIONS: usize = 2;

/// Smallest metadata area, in sectors.
pub const MIN_MDA_SECTORS: u64 = 2032;

/// Version of the region header.
pub const STRAT_REGION_HDR_VERSION: u8 = 1;

/// Version of the metadata that a region holds.
pub const STRAT_METADATA_VERSION: u8 = 1;

/// What is wrong with a metadata area of `size` sectors, if anything: it must
/// be a multiple of four sectors and no smaller than the minimum.
pub open spec fn mda_size_fault(size: u64) -> Option<Invalid> {
    if size % NUM_MDA_REGIONS != 0 {
        Some(Invalid::MdaSizeNotDivisible(size))
    } else if size < MIN_MDA_SECTORS {
        Some(Invalid::MdaSizeTooSmall(size))
    } else {
        None
    }
}

/// What is wrong with `used` bytes of metadata in a region of `available`
/// bytes, if anything: the region header and the metadata must fit.
pub open spec fn region_size_fault(used: u64, available: u64) -> Option<Invalid> {
    if MDA_REGION_HDR_SIZE + used > available {
        Some(Invalid::MetadataTooLong { used, available })
    } else {
        None
    }
}

/// Checks that `used` bytes of metadata fit into a region of `available`
/// bytes behind the region header.
pub fn check_mda_region_size(used: u64, available: u64) -> (r: MetadataResult<()>)
    ensures
        r == match region_size_fault(used, available) {
            Some(fault) => Err::<(), MetadataError>(MetadataError::Invalid(fault)),
            None => Ok(()),
        },
{
    if available < MDA_REGION_HDR_SIZE || used > available - MDA_REGION_HDR_SIZE {
        return Err(MetadataError::Invalid(Invalid::MetadataTooLong { used, available }));
    }
    Ok(())
}

/// Validates the size of a metadata area, in sectors.
pub fn validate_mda_size(size: u64) -> (r: MetadataResult<()>)
    ensures
        r == match mda_size_fault(size) {
            Some(fault) => Err::<(), MetadataError>(MetadataError::Invalid(fault)),
            None => Ok(()),
        },
{
    if size % NUM_MDA_REGIONS != 0 {
        return Err(MetadataError::Invalid(Invalid::MdaSizeNotDivisible(size)));
    }
    if size < MIN_MDA_SECTORS {
        return Err(MetadataError::Invalid(Invalid::MdaSizeTooSmall(size)));
    }
    Ok(())
}

/// A point in time: seconds since the epoch and the nanoseconds behind them.
#[derive(Clone, Copy, Debug, PartialEq, Eq, PartialOrd, Ord, Hash, Structural)]
pub struct Timestamp {
    pub secs: i64,
    pub nsecs: u32,
}

impl Timestamp {
    /// Whether this point in time lies before `other`.
    pub open spec fn is_before(self, other: Timestamp) -> bool {
        self.secs < other.secs || (self.secs == other.secs && self.nsecs < other.nsecs)
    }

    /// Whether this point in time lies before `other`.
    pub fn before(&self, other: &Timestamp) -> (b: bool)
        ensures
            b == self.is_before(*other),
    {
        self.secs < other.secs || (self.secs == other.secs && self.nsecs < other.nsecs)
    }
}

/// The header of a region: when the metadata behind it was written, how long
/// it is, and its checksum.
#[derive(Clone, Copy, Debug, PartialEq, Eq, Structural)]
pub struct MDAHeader {
    pub last_updated: Timestamp,
    /// Number of bytes of metadata behind the header.
    pub used: u64,
    pub data_crc: u32,
}

/// What a region header of 32 bytes says, in a region of `region_size`
/// bytes: an error where a check fails, nothing where the seconds are zero,
/// which marks a region that was never written, else the header.
pub open spec fn decode_region_header(buf: Seq<u8>, region_size: u64) -> MetadataResult<
    Option<MDAHeader>,
>
    recommends
        buf.len() == MDA_REGION_HDR_SIZE,
{
    let secs = spec_u64_from_le_bytes(buf.subrange(16, 24));
    let used = spec_u64_from_le_bytes(buf.subrange(8, 16));
    if spec_u32_from_le_bytes(buf.subrange(0, 4)) != crc32c(buf.subrange(4, 32)) {
        Err(MetadataError::Invalid(Invalid::RegionHeaderCrc))
    } else if buf[28] != STRAT_REGION_HDR_VERSION {
        Err(MetadataError::Invalid(Invalid::RegionHeaderVersion(buf[28])))
    } else if buf[29] != STRAT_METADATA_VERSION {
        Err(MetadataError::Invalid(Invalid::MetadataVersion(buf[29])))
    } else if secs == 0 {
        Ok(None)
    } else if region_size_fault(used, region_size) is Some {
        Err(MetadataError::Invalid(region_size_fault(used, region_size).unwrap()))
    } else if secs > i64::MAX {
        Err(MetadataError::Invalid(Invalid::TimestampOutOfRange(secs)))
    } else {
        Ok(
            Some(
                MDAHeader {
                    last_updated: Timestamp {
                        secs: secs as i64,
                        nsecs: spec_u32_from_le_bytes(buf.subrange(24, 28)),
                    },
                    used,
                    data_crc: spec_u32_from_le_bytes(buf.subrange(4, 8)),
                },
            ),
        )
    }
}

impl Default for MDAHeader {
    /// The header of a region that was never written.
    fn default() -> (header: MDAHeader)
        ensures
            header == MDAHeader::empty(),
    {
        MDAHeader { last_updated: Timestamp { secs: 0, nsecs: 0 }, used: 0, data_crc: 0 }
    }
}

impl MDAHeader {
    /// The header of a region that was never written: all zero.
    pub open spec fn empty() -> MDAHeader {
        MDAHeader { last_updated: Timestamp { secs: 0, nsecs: 0 }, used: 0, data_crc: 0 }
    }

    /// Bytes 4 to 32 of the region header, which its checksum covers.
    pub open spec fn header_body(self) -> Seq<u8> {
        spec_u32_to_le_bytes(self.data_crc) + spec_u64_to_le_bytes(self.used)
            + spec_u64_to_le_bytes(self.last_updated.secs as u64) + spec_u32_to_le_bytes(
            self.last_updated.nsecs,
        ) + seq![STRAT_REGION_HDR_VERSION, STRAT_METADATA_VERSION, 0u8, 0u8]
    }

    /// The region header as it stands on the device: the checksum, then what
    /// it covers.
    pub open spec fn header_bytes(self) -> Seq<u8> {
        spec_u32_to_le_bytes(crc32c(self.header_body())) + self.header_body()
    }

    /// Reads a region header. `region_size` is the size of the region in
    /// bytes.
    pub fn from_buf(buf: &[u8; 32], region_size: u64) -> (r: MetadataResult<Option<MDAHeader>>)
        ensures
            r == decode_region_header(buf@, region_size),
    {
        proof {
            assert(buf@.subrange(0, 4).subrange(0, 4) == buf@.subrange(0, 4));
            assert(buf@.subrange(4, 8).subrange(0, 4) == buf@.subrange(4, 8));
            assert(buf@.subrange(8, 16).subrange(0, 8) == buf@.subrange(8, 16));
            assert(buf@.subrange(16, 24).subrange(0, 8) == buf@.subrange(16, 24));
            assert(buf@.subrange(24, 28).subrange(0, 4) == buf@.subrange(24, 28));
        }
        if read_u32(&buf[0..4]) != checksum_castagnoli(&buf[4..32]) {
            return Err(MetadataError::Invalid(Invalid::RegionHeaderCrc));
        }
        let hdr_version = buf[28];
        if hdr_version != STRAT_REGION_HDR_VERSION {
            return Err(MetadataError::Invalid(Invalid::RegionHeaderVersion(hdr_version)));
        }
        let metadata_version = buf[29];
        if metadata_version != STRAT_METADATA_VERSION {
            return Err(MetadataError::Invalid(Invalid::MetadataVersion(metadata_version)));
        }
        let secs = read_u64(&buf[16..24]);
        if secs == 0 {
            return Ok(None);
        }
        let used = read_u64(&buf[8..16]);
        match check_mda_region_size(used, region_size) {
            Ok(()) => {},
            Err(e) => {
                return Err(e);
            },
        }
        if secs > i64::MAX as u64 {
            return Err(MetadataError::Invalid(Invalid::TimestampOutOfRange(secs)));
        }
        let nsecs = read_u32(&buf[24..28]);
        Ok(
            Some(
                MDAHeader {
                    used,
                    last_updated: Timestamp { secs: secs as i64, nsecs },
                    data_crc: read_u32(&buf[4..8]),
                },
            ),
        )
    }

    /// Generates the region header, ready to be written to a device.
    pub fn to_buf(&self) -> (buf: [u8; 32])
        requires
            self.last_updated.secs >= 0,
        ensures
            buf@ == self.header_bytes(),
    {
        let mut buf = [0u8; 32];
        proof {
            lemma_auto_spec_u64_to_from_le_bytes();
            lemma_auto_spec_u32_to_from_le_bytes();
        }
        let data_crc = u32_bytes(self.data_crc);
        put(&mut buf, 4, &data_crc);
        let used = u64_bytes(self.used);
        put(&mut buf, 8, &used);
        let secs = u64_bytes(self.last_updated.secs as u64);
        put(&mut buf, 16, &secs);
        let nsecs = u32_bytes(self.last_updated.nsecs);
        put(&mut buf, 24, &nsecs);
        buf[28] = STRAT_REGION_HDR_VERSION;
        buf[29] = STRAT_METADATA_VERSION;
        proof {
            assert(buf@.subrange(4, 32) =~= self.header_body());
        }
        let buf_crc = checksum_castagnoli(&buf[4..32]);
        let crc = u32_bytes(buf_crc);
        put(&mut buf, 0, &crc);
        proof {
            assert(buf@ =~= self.header_bytes());
        }
        buf
    }
}

/// The two logical slots of a metadata area, as read from or written to a
/// device. Regions 0 and 1 hold the slots; regions 2 and 3 are their copies.
#[derive(Clone, Copy, Debug, PartialEq, Eq)]
pub struct MDARegions {
    /// Size of one region in sectors.
    pub region_size: u64,
    /// The header of each slot, or nothing for a slot that was never written.
    pub mdas: [Option<MDAHeader>; NUM_PRIMARY_MDA_REGIONS],
}

/// Number of bytes in a sector.
pub const BYTES_PER_SECTOR: u64 = 512;

/// Whether a metadata area of `size` sectors behind `header_size` bytes lies
/// within what 64 bits can address.
pub open spec fn area_fits(header_size: u64, size: u64) -> bool {
    header_size + NUM_MDA_REGIONS * ((size / NUM_MDA_REGIONS) * BYTES_PER_SECTOR) <= u64::MAX
}

/// Offset of region `index`, where the regions begin behind `header_size`
/// bytes and take `per_region_size` bytes each.
pub open spec fn region_offset(header_size: u64, index: int, per_region_size: u64) -> int {
    header_size + per_region_size * index
}

/// `bytes` with `header` written at the start of each of the first `count`
/// regions.
pub open spec fn with_region_headers(
    bytes: Seq<u8>,
    header_size: u64,
    per_region_size: u64,
    header: Seq<u8>,
    count: nat,
) -> Seq<u8>
    decreases count,
{
    if count == 0 {
        bytes
    } else {
        overwrite(
            with_region_headers(bytes, header_size, per_region_size, header, (count - 1) as nat),
            region_offset(header_size, count - 1, per_region_size),
            header,
        )
    }
}

/// What a stream that held `bytes` holds after a region header and the
/// metadata that it describes were written at `at`, in two writes. On a
/// stream that is long enough that is the header and the metadata at `at`; on
/// a shorter one, the writes that fit.
pub open spec fn with_record_at(bytes: Seq<u8>, at: int, header: Seq<u8>, data: Seq<u8>) -> Seq<
    u8,
> {
    overwrite(overwrite(bytes, at, header), at + header.len(), data)
}

/// Writing region headers keeps the length of the stream.
pub proof fn lemma_region_headers_len(
    bytes: Seq<u8>,
    header_size: u64,
    per_region_size: u64,
    header: Seq<u8>,
    count: nat,
)
    ensures
        with_region_headers(bytes, header_size, per_region_size, header, count).len()
            == bytes.len(),
    decreases count,
{
    if count > 0 {
        lemma_region_headers_len(bytes, header_size, per_region_size, header, (count - 1) as nat);
    }
}

/// Where the header of one region does not fit, those of the regions behind
/// it do not fit either.
pub proof fn lemma_region_headers_stop(
    bytes: Seq<u8>,
    header_size: u64,
    per_region_size: u64,
    header: Seq<u8>,
    first: nat,
    count: nat,
)
    requires
        first <= count,
        region_offset(header_size, first as int, per_region_size) + header.len() > bytes.len(),
    ensures
        with_region_headers(bytes, header_size, per_region_size, header, count)
            == with_region_headers(bytes, header_size, per_region_size, header, first),
    decreases count,
{
    if count > first {
        lemma_region_headers_stop(
            bytes,
            header_size,
            per_region_size,
            header,
            first,
            (count - 1) as nat,
        );
        lemma_region_headers_len(bytes, header_size, per_region_size, header, first);
        assert(per_region_size * (count - 1) >= per_region_size * first) by (nonlinear_arith)
            requires
                count - 1 >= first,
        ;
    }
}

/// What the header of region `index` says on a predictable stream that
/// holds `bytes` and cannot be read at `unreadable`.
pub open spec fn region_header_at(
    bytes: Seq<u8>,
    unreadable: Set<int>,
    header_size: u64,
    per_region_size: u64,
    index: int,
) -> MetadataResult<Option<MDAHeader>> {
    match read_outcome(
        bytes,
        unreadable,
        region_offset(header_size, index, per_region_size),
        MDA_REGION_HDR_SIZE as int,
    ) {
        Err(e) => Err(MetadataError::Io(e)),
        Ok(buf) => decode_region_header(buf, per_region_size),
    }
}

/// What a predictable stream that holds `bytes` says of slot `index`: what the
/// header of its first copy says, or, where that cannot be read or fails a
/// check, what the header of its second copy says.
pub open spec fn slot_on_device(
    bytes: Seq<u8>,
    unreadable: Set<int>,
    header_size: u64,
    per_region_size: u64,
    index: int,
) -> MetadataResult<Option<MDAHeader>> {
    let primary = region_header_at(bytes, unreadable, header_size, per_region_size, index);
    if primary is Ok {
        primary
    } else {
        region_header_at(bytes, unreadable, header_size, per_region_size, index + 2)
    }
}

/// What a predictable stream that holds `bytes` says of both slots, or the
/// first failure.
pub open spec fn slots_on_device(
    bytes: Seq<u8>,
    unreadable: Set<int>,
    header_size: u64,
    per_region_size: u64,
) -> MetadataResult<(Option<MDAHeader>, Option<MDAHeader>)> {
    match slot_on_device(bytes, unreadable, header_size, per_region_size, 0) {
        Err(e) => Err(e),
        Ok(mda0) => match slot_on_device(bytes, unreadable, header_size, per_region_size, 1) {
            Err(e) => Err(e),
            Ok(mda1) => Ok((mda0, mda1)),
        },
    }
}

/// The slots of loaded regions.
pub open spec fn slots_loaded(r: MetadataResult<MDARegions>) -> MetadataResult<
    (Option<MDAHeader>, Option<MDAHeader>),
> {
    match r {
        Ok(regions) => Ok((regions.mdas[0], regions.mdas[1])),
        Err(e) => Err(e),
    }
}

/// The metadata that `header` describes, read at `at` from a predictable
/// stream that holds `bytes`: an error where the stream is too short or the
/// checksum does not match.
pub open spec fn payload_at(
    bytes: Seq<u8>,
    unreadable: Set<int>,
    at: int,
    header: MDAHeader,
) -> MetadataResult<Seq<u8>> {
    match read_outcome(bytes, unreadable, at, header.used as int) {
        Err(e) => Err(MetadataError::Io(e)),
        Ok(data) => if crc32c(data) != header.data_crc {
            Err(MetadataError::Invalid(Invalid::RegionDataCrc))
        } else {
            Ok(data)
        },
    }
}

/// The result of reading metadata, with the metadata as a sequence.
pub open spec fn payload_read(r: MetadataResult<Vec<u8>>) -> MetadataResult<Seq<u8>> {
    match r {
        Ok(data) => Ok(data@),
        Err(e) => Err(e),
    }
}

/// The result of loading the state, with the metadata as a sequence.
pub open spec fn state_read(r: MetadataResult<Option<Vec<u8>>>) -> MetadataResult<Option<Seq<u8>>> {
    match r {
        Ok(Some(data)) => Ok(Some(data@)),
        Ok(None) => Ok(None),
        Err(e) => Err(e),
    }
}

impl MDAHeader {
    /// Loads the metadata that this header describes from the position of
    /// the stream, and checks it against the checksum. The header cannot
    /// seek, since it does not know which region it belongs to.
    pub fn load_region<F: ByteStream>(&self, f: &mut F) -> (r: MetadataResult<Vec<u8>>)
        ensures
            final(f).predictable() == old(f).predictable(),
            old(f).predictable() ==> final(f).unreadable() == old(f).unreadable(),
            r matches Ok(data) ==> data@.len() == self.used && crc32c(data@) == self.data_crc,
            old(f).predictable() ==> {
                &&& final(f).bytes() == old(f).bytes()
                &&& final(f).flushed() == old(f).flushed()
                &&& payload_read(r) == payload_at(
                    old(f).bytes(),
                    old(f).unreadable(),
                    old(f).position() as int,
                    *self,
                )
            },
    {
        let data_buf = match f.read_exact(self.used) {
            Ok(data) => data,
            Err(e) => {
                return Err(MetadataError::Io(e));
            },
        };
        if data_buf.len() as u64 != self.used {
            return Err(MetadataError::Io(IoError::UnexpectedEof));
        }
        if self.data_crc != checksum_castagnoli(data_buf.as_slice()) {
            return Err(MetadataError::Invalid(Invalid::RegionDataCrc));
        }
        Ok(data_buf)
    }
}

impl MDARegions {
    /// Size of one region in bytes.
    pub open spec fn region_bytes(self) -> int {
        self.region_size * BYTES_PER_SECTOR
    }

    /// Whether the four regions, behind `header_size` bytes, lie within what
    /// 64 bits can address.
    pub open spec fn fits_behind(self, header_size: u64) -> bool {
        header_size + NUM_MDA_REGIONS * self.region_bytes() <= u64::MAX
    }

    /// Whether the metadata of each slot fits into a region.
    pub open spec fn wf(self) -> bool {
        forall|i: int|
            0 <= i < NUM_PRIMARY_MDA_REGIONS ==> (#[trigger] self.mdas[i] matches Some(header)
                ==> MDA_REGION_HDR_SIZE + header.used <= self.region_bytes())
    }

    /// The slot that is written next: the first that was never written, else
    /// the one that was written earlier, the second on a tie.
    pub open spec fn older_slot(self) -> int {
        match (self.mdas[0], self.mdas[1]) {
            (None, _) => 0,
            (_, None) => 1,
            (Some(mda0), Some(mda1)) => if mda0.last_updated.is_before(mda1.last_updated) {
                0
            } else {
                1
            },
        }
    }

    /// The slot that is read: the other one.
    pub open spec fn newer_slot(self) -> int {
        1 - self.older_slot()
    }

    /// When the newer slot was written, if it was.
    pub open spec fn newest(self) -> Option<Timestamp> {
        match self.mdas[self.newer_slot()] {
            Some(header) => Some(header.last_updated),
            None => None,
        }
    }

    /// The header that `save_state` writes for `data` at `time`.
    pub open spec fn header_for(time: Timestamp, data: Seq<u8>) -> MDAHeader {
        MDAHeader { last_updated: time, used: data.len() as u64, data_crc: crc32c(data) }
    }

    /// Whether these regions are what `before` becomes when `data` is saved
    /// at `time`: the older slot has the new header, the newer slot is as it
    /// was.
    pub open spec fn is_saved_from(
        self,
        before: MDARegions,
        time: Timestamp,
        data: Seq<u8>,
    ) -> bool {
        &&& self.region_size == before.region_size
        &&& self.mdas[before.older_slot()] == Some(MDARegions::header_for(time, data))
        &&& self.mdas[before.newer_slot()] == before.mdas[before.newer_slot()]
    }

    /// Why `save_state` turns `data` at `time` down, if it does: the newer
    /// slot is as new or newer, or the data does not fit into a region.
    pub open spec fn save_fault(self, time: Timestamp, data: Seq<u8>) -> Option<Invalid> {
        if self.newest() matches Some(newest) && !newest.is_before(time) {
            Some(Invalid::OverwritingNewer)
        } else {
            region_size_fault(data.len() as u64, self.region_bytes() as u64)
        }
    }

    /// What a predictable stream that held `bytes` holds after `data` was
    /// saved at `time`: the header and the data in both copies of the older
    /// slot.
    pub open spec fn saved_image(
        self,
        bytes: Seq<u8>,
        header_size: u64,
        time: Timestamp,
        data: Seq<u8>,
    ) -> Seq<u8> {
        let header = MDARegions::header_for(time, data).header_bytes();
        let per_region_size = self.region_bytes() as u64;
        with_record_at(
            with_record_at(
                bytes,
                region_offset(header_size, self.older_slot(), per_region_size),
                header,
                data,
            ),
            region_offset(header_size, self.older_slot() + 2, per_region_size),
            header,
            data,
        )
    }

    /// Number of bytes that a stream must hold for `data` to be saved: up to
    /// the end of the data in the second copy of the older slot.
    pub open spec fn saved_end(self, header_size: u64, data: Seq<u8>) -> int {
        region_offset(header_size, self.older_slot() + 2, self.region_bytes() as u64)
            + MDA_REGION_HDR_SIZE + data.len()
    }

    /// What saving `data` at `time` makes durable on a predictable stream that
    /// held `bytes`, in order: the stream once the first copy of the older
    /// slot was written, then the stream with both copies written; each if
    /// the stream is long enough for it.
    pub open spec fn saved_flushed(
        self,
        bytes: Seq<u8>,
        header_size: u64,
        time: Timestamp,
        data: Seq<u8>,
    ) -> Seq<Seq<u8>> {
        let header = MDARegions::header_for(time, data).header_bytes();
        let first = region_offset(header_size, self.older_slot(), self.region_bytes() as u64);
        flushed_once(
            with_record_at(bytes, first, header, data),
            first + MDA_REGION_HDR_SIZE + data.len(),
        ) + flushed_once(
            self.saved_image(bytes, header_size, time, data),
            self.saved_end(header_size, data),
        )
    }

    /// What `load_state` returns on a predictable stream that holds `bytes`:
    /// nothing where the newer slot was never written, else its metadata
    /// from the first copy, or, where that cannot be read or fails its
    /// checksum, from the second.
    pub open spec fn state_on_device(
        self,
        bytes: Seq<u8>,
        unreadable: Set<int>,
        header_size: u64,
    ) -> MetadataResult<Option<Seq<u8>>> {
        let per_region_size = self.region_bytes() as u64;
        match self.mdas[self.newer_slot()] {
            None => Ok(None),
            Some(header) => {
                let primary = payload_at(
                    bytes,
                    unreadable,
                    region_offset(header_size, self.newer_slot(), per_region_size)
                        + MDA_REGION_HDR_SIZE,
                    header,
                );
                let secondary = payload_at(
                    bytes,
                    unreadable,
                    region_offset(header_size, self.newer_slot() + 2, per_region_size)
                        + MDA_REGION_HDR_SIZE,
                    header,
                );
                match primary {
                    Ok(data) => Ok(Some(data)),
                    Err(_) => match secondary {
                        Ok(data) => Ok(Some(data)),
                        Err(e) => Err(e),
                    },
                }
            },
        }
    }

    /// Calculates the offset of a region from the start of the device.
    pub fn mda_offset(header_size: u64, index: usize, per_region_size: u64) -> (offset: u64)
        requires
            region_offset(header_size, index as int, per_region_size) <= u64::MAX,
        ensures
            offset == region_offset(header_size, index as int, per_region_size),
    {
        assert(per_region_size * index <= u64::MAX) by (nonlinear_arith)
            requires
                header_size + per_region_size * index <= u64::MAX,
                header_size >= 0,
        ;
        header_size + per_region_size * (index as u64)
    }

    /// The most metadata that a region could be asked to hold, in sectors.
    pub fn max_data_size(&self) -> (size: u64)
        ensures
            size == self.region_size,
    {
        self.region_size
    }

    /// Writes the header of a region that was never written to each of the
    /// four regions of a metadata area of `size` sectors behind
    /// `header_size` bytes, and returns regions without metadata.
    pub fn initialize<F: ByteStream>(header_size: u64, size: u64, f: &mut F) -> (r: MetadataResult<
        MDARegions,
    >)
        requires
            area_fits(header_size, size),
        ensures
            final(f).predictable() == old(f).predictable(),
            old(f).predictable() ==> final(f).unreadable() == old(f).unreadable(),
            r matches Ok(regions) ==> {
                &&& regions.region_size == size / NUM_MDA_REGIONS
                &&& regions.mdas[0] is None
                &&& regions.mdas[1] is None
            },
            r matches Err(e) ==> e is Io,
            old(f).predictable() ==> {
                let per_region_size = ((size / NUM_MDA_REGIONS) * BYTES_PER_SECTOR) as u64;
                let end = region_offset(header_size, 3, per_region_size) + MDA_REGION_HDR_SIZE;
                &&& final(f).bytes() == with_region_headers(
                    old(f).bytes(),
                    header_size,
                    per_region_size,
                    MDAHeader::empty().header_bytes(),
                    4,
                )
                &&& final(f).flushed() == old(f).flushed() + flushed_once(final(f).bytes(), end)
                &&& if end <= old(f).bytes().len() {
                    r is Ok
                } else {
                    r == Err::<MDARegions, MetadataError>(MetadataError::Io(IoError::WriteZero))
                }
            },
    {
        let hdr_buf = MDAHeader::default().to_buf();
        let region_size = size / NUM_MDA_REGIONS;
        let per_region_size = region_size * BYTES_PER_SECTOR;
        proof {
            lemma_header_bytes_len(MDAHeader::empty());
        }
        let mut region: usize = 0;
        while region < 4
            invariant
                region <= 4,
                per_region_size == (size / NUM_MDA_REGIONS) * BYTES_PER_SECTOR,
                header_size + 4 * per_region_size <= u64::MAX,
                hdr_buf@ == MDAHeader::empty().header_bytes(),
                hdr_buf@.len() == MDA_REGION_HDR_SIZE,
                f.predictable() == old(f).predictable(),
                old(f).predictable() ==> {
                    &&& f.bytes().len() == old(f).bytes().len()
                    &&& f.unreadable() == old(f).unreadable()
                    &&& f.flushed() == old(f).flushed()
                    &&& f.bytes() == with_region_headers(
                        old(f).bytes(),
                        header_size,
                        per_region_size,
                        hdr_buf@,
                        region as nat,
                    )
                    &&& region > 0 ==> region_offset(header_size, region - 1, per_region_size)
                        + MDA_REGION_HDR_SIZE <= old(f).bytes().len()
                },
            decreases 4 - region,
        {
            assert(per_region_size * region <= 4 * per_region_size) by (nonlinear_arith)
                requires
                    region <= 4,
                    per_region_size >= 0,
            ;
            assert(per_region_size * region <= per_region_size * 3) by (nonlinear_arith)
                requires
                    region <= 3,
                    per_region_size >= 0,
            ;
            let offset = MDARegions::mda_offset(header_size, region, per_region_size);
            match write_at(f, offset, &hdr_buf) {
                Ok(()) => {},
                Err(e) => {
                    proof {
                        if old(f).predictable() {
                            lemma_region_headers_stop(
                                old(f).bytes(),
                                header_size,
                                per_region_size,
                                hdr_buf@,
                                region as nat,
                                4,
                            );
                            lemma_region_headers_len(
                                old(f).bytes(),
                                header_size,
                                per_region_size,
                                hdr_buf@,
                                4,
                            );
                        }
                    }
                    return Err(MetadataError::Io(e));
                },
            }
            region += 1;
        }
        match f.sync_all() {
            Ok(()) => {},
            Err(e) => {
                return Err(MetadataError::Io(e));
            },
        }
        proof {
            if old(f).predictable() {
                assert(f.flushed() =~= old(f).flushed() + seq![f.bytes()]);
            }
        }
        Ok(MDARegions { region_size, mdas: [None, None] })
    }

    /// Loads the header of region `index`: nothing where the region was
    /// never written, an error where it cannot be read or is damaged.
    fn load_a_region<F: ByteStream>(
        header_size: u64,
        index: usize,
        per_region_size: u64,
        f: &mut F,
    ) -> (r: MetadataResult<Option<MDAHeader>>)
        requires
            index < 4,
            header_size + 4 * per_region_size <= u64::MAX,
        ensures
            final(f).predictable() == old(f).predictable(),
            old(f).predictable() ==> final(f).unreadable() == old(f).unreadable(),
            r matches Ok(Some(header)) ==> MDA_REGION_HDR_SIZE + header.used <= per_region_size,
            old(f).predictable() ==> {
                &&& final(f).bytes() == old(f).bytes()
                &&& final(f).flushed() == old(f).flushed()
                &&& r == region_header_at(
                    old(f).bytes(),
                    old(f).unreadable(),
                    header_size,
                    per_region_size,
                    index as int,
                )
            },
    {
        assert(per_region_size * index <= 4 * per_region_size) by (nonlinear_arith)
            requires
                index <= 4,
                per_region_size >= 0,
        ;
        let offset = MDARegions::mda_offset(header_size, index, per_region_size);
        let data = match read_at(f, offset, MDA_REGION_HDR_SIZE) {
            Ok(data) => data,
            Err(e) => {
                return Err(MetadataError::Io(e));
            },
        };
        let mut hdr_buf = [0u8; 32];
        put(&mut hdr_buf, 0, data.as_slice());
        assert(hdr_buf@ =~= data@);
        MDAHeader::from_buf(&hdr_buf, per_region_size)
    }

    /// Gets the header of slot `index`: from its first copy, or, where that
    /// fails, from its second.
    fn get_mda<F: ByteStream>(
        header_size: u64,
        index: usize,
        per_region_size: u64,
        f: &mut F,
    ) -> (r: MetadataResult<Option<MDAHeader>>)
        requires
            index < 2,
            header_size + 4 * per_region_size <= u64::MAX,
        ensures
            final(f).predictable() == old(f).predictable(),
            old(f).predictable() ==> final(f).unreadable() == old(f).unreadable(),
            r matches Ok(Some(header)) ==> MDA_REGION_HDR_SIZE + header.used <= per_region_size,
            old(f).predictable() ==> {
                &&& final(f).bytes() == old(f).bytes()
                &&& final(f).flushed() == old(f).flushed()
                &&& r == slot_on_device(
                    old(f).bytes(),
                    old(f).unreadable(),
                    header_size,
                    per_region_size,
                    index as int,
                )
            },
    {
        match MDARegions::load_a_region(header_size, index, per_region_size, f) {
            Ok(mda) => Ok(mda),
            Err(_) => MDARegions::load_a_region(header_size, index + 2, per_region_size, f),
        }
    }

    /// Constructs the regions from what a device holds. This is called on a
    /// device whose static header was read, so it is an error if two
    /// well-formed slots cannot be found.
    pub fn load<F: ByteStream>(header_size: u64, size: u64, f: &mut F) -> (r: MetadataResult<
        MDARegions,
    >)
        requires
            area_fits(header_size, size),
        ensures
            final(f).predictable() == old(f).predictable(),
            old(f).predictable() ==> final(f).unreadable() == old(f).unreadable(),
            r matches Ok(regions) ==> regions.region_size == size / NUM_MDA_REGIONS
                && regions.wf(),
            old(f).predictable() ==> {
                &&& final(f).bytes() == old(f).bytes()
                &&& final(f).flushed() == old(f).flushed()
                &&& slots_loaded(r) == slots_on_device(
                    old(f).bytes(),
                    old(f).unreadable(),
                    header_size,
                    ((size / NUM_MDA_REGIONS) * BYTES_PER_SECTOR) as u64,
                )
            },
    {
        let region_size = size / NUM_MDA_REGIONS;
        let per_region_size = region_size * BYTES_PER_SECTOR;
        let mda0 = match MDARegions::get_mda(header_size, 0, per_region_size, f) {
            Ok(mda) => mda,
            Err(e) => {
                return Err(e);
            },
        };
        let mda1 = match MDARegions::get_mda(header_size, 1, per_region_size, f) {
            Ok(mda) => mda,
            Err(e) => {
                return Err(e);
            },
        };
        Ok(MDARegions { region_size, mdas: [mda0, mda1] })
    }

    /// Writes a header and the data behind it to region `index`, and makes
    /// both durable.
    fn save_region<F: ByteStream>(
        header_size: u64,
        index: usize,
        per_region_size: u64,
        hdr_buf: &[u8; 32],
        data: &[u8],
        f: &mut F,
    ) -> (r: Result<(), IoError>)
        requires
            index < 4,
            header_size + 4 * per_region_size <= u64::MAX,
        ensures
            final(f).predictable() == old(f).predictable(),
            old(f).predictable() ==> final(f).unreadable() == old(f).unreadable(),
            old(f).predictable() ==> {
                let at = region_offset(header_size, index as int, per_region_size);
                &&& final(f).bytes() == with_record_at(old(f).bytes(), at, hdr_buf@, data@)
                &&& r == write_outcome(old(f).bytes(), at, MDA_REGION_HDR_SIZE + data@.len())
                &&& final(f).flushed() == old(f).flushed() + flushed_once(
                    final(f).bytes(),
                    at + MDA_REGION_HDR_SIZE + data@.len(),
                )
            },
    {
        assert(per_region_size * index <= 4 * per_region_size) by (nonlinear_arith)
            requires
                index <= 4,
                per_region_size >= 0,
        ;
        let offset = MDARegions::mda_offset(header_size, index, per_region_size);
        match write_at(f, offset, hdr_buf) {
            Ok(()) => {},
            Err(e) => {
                return Err(e);
            },
        }
        match f.write_all(data) {
            Ok(()) => {},
            Err(e) => {
                return Err(e);
            },
        }
        match f.sync_all() {
            Ok(()) => {},
            Err(e) => {
                return Err(e);
            },
        }
        proof {
            if old(f).predictable() {
                assert(f.flushed() =~= old(f).flushed() + seq![f.bytes()]);
            }
        }
        Ok(())
    }

    /// Why a save of `data` at `time` would be turned down, if it would:
    /// the newer slot was written at `time` or later, or else the data does
    /// not fit into a region. This is decided before anything is written,
    /// for any time, also one before the epoch.
    pub fn check_save(&self, time: &Timestamp, data: &[u8]) -> (fault: Option<Invalid>)
        requires
            self.region_bytes() <= u64::MAX,
        ensures
            fault == self.save_fault(*time, data@),
    {
        match self.last_update_time() {
            Some(newest) => {
                if !newest.before(time) {
                    return Some(Invalid::OverwritingNewer);
                }
            },
            None => {},
        }
        let region_size = self.region_size * BYTES_PER_SECTOR;
        let used = data.len() as u64;
        match check_mda_region_size(used, region_size) {
            Err(MetadataError::Invalid(fault)) => Some(fault),
            _ => None,
        }
    }

    /// Writes metadata to the older slot, in both of its copies, and records
    /// the new header for that slot once both are written.
    ///
    /// It is an error if the newer slot was written at `time` or later, or
    /// if the data does not fit into a region; then nothing is written.
    pub fn save_state<F: ByteStream>(
        &mut self,
        header_size: u64,
        time: &Timestamp,
        data: &[u8],
        f: &mut F,
    ) -> (r: MetadataResult<()>)
        requires
            old(self).wf(),
            old(self).fits_behind(header_size),
            time.secs >= 0,
        ensures
            final(f).predictable() == old(f).predictable(),
            old(f).predictable() ==> final(f).unreadable() == old(f).unreadable(),
            final(self).wf(),
            r is Ok ==> final(self).is_saved_from(*old(self), *time, data@),
            r is Err ==> *final(self) == *old(self),
            match old(self).save_fault(*time, data@) {
                Some(fault) => {
                    &&& r == Err::<(), MetadataError>(MetadataError::Invalid(fault))
                    &&& old(f).predictable() ==> {
                        &&& final(f).bytes() == old(f).bytes()
                        &&& final(f).flushed() == old(f).flushed()
                    }
                },
                None => {
                    &&& r matches Err(e) ==> e is Io
                    &&& old(f).predictable() ==> {
                        &&& final(f).bytes() == old(self).saved_image(
                            old(f).bytes(),
                            header_size,
                            *time,
                            data@,
                        )
                        &&& final(f).flushed() == old(f).flushed() + old(self).saved_flushed(
                            old(f).bytes(),
                            header_size,
                            *time,
                            data@,
                        )
                        &&& if old(self).saved_end(header_size, data@) <= old(f).bytes().len() {
                            r is Ok
                        } else {
                            r == Err::<(), MetadataError>(MetadataError::Io(IoError::WriteZero))
                        }
                    }
                },
            },
    {
        match self.check_save(time, data) {
            None => {},
            Some(fault) => {
                return Err(MetadataError::Invalid(fault));
            },
        }
        let region_size = self.region_size * BYTES_PER_SECTOR;
        let used = data.len() as u64;
        let header = MDAHeader {
            last_updated: *time,
            used,
            data_crc: checksum_castagnoli(data),
        };
        let hdr_buf = header.to_buf();
        let older_region = self.older();
        proof {
            lemma_header_bytes_len(header);
            assert(region_size * older_region <= region_size) by (nonlinear_arith)
                requires
                    older_region <= 1,
                    region_size >= 0,
            ;
            // The second copy lies two regions behind the first.
            assert(region_size * (older_region + 2) == region_size * older_region + 2
                * region_size) by (nonlinear_arith);
        }
        match MDARegions::save_region(header_size, older_region, region_size, &hdr_buf, data, f) {
            Ok(()) => {},
            Err(e) => {
                return Err(MetadataError::Io(e));
            },
        }
        match MDARegions::save_region(
            header_size,
            older_region + 2,
            region_size,
            &hdr_buf,
            data,
            f,
        ) {
            Ok(()) => {},
            Err(e) => {
                return Err(MetadataError::Io(e));
            },
        }
        self.mdas[older_region] = Some(header);
        Ok(())
    }

    /// Loads the metadata of region `index`, which `mda` describes.
    fn load_region<F: ByteStream>(
        header_size: u64,
        index: usize,
        per_region_size: u64,
        mda: &MDAHeader,
        f: &mut F,
    ) -> (r: MetadataResult<Vec<u8>>)
        requires
            index < 4,
            header_size + 4 * per_region_size <= u64::MAX,
            MDA_REGION_HDR_SIZE <= per_region_size,
        ensures
            final(f).predictable() == old(f).predictable(),
            old(f).predictable() ==> final(f).unreadable() == old(f).unreadable(),
            r matches Ok(data) ==> data@.len() == mda.used && crc32c(data@) == mda.data_crc,
            old(f).predictable() ==> {
                &&& final(f).bytes() == old(f).bytes()
                &&& final(f).flushed() == old(f).flushed()
                &&& payload_read(r) == payload_at(
                    old(f).bytes(),
                    old(f).unreadable(),
                    region_offset(header_size, index as int, per_region_size)
                        + MDA_REGION_HDR_SIZE,
                    *mda,
                )
            },
    {
        assert(per_region_size * index <= 3 * per_region_size) by (nonlinear_arith)
            requires
                index <= 3,
                per_region_size >= 0,
        ;
        let offset = MDARegions::mda_offset(header_size, index, per_region_size)
            + MDA_REGION_HDR_SIZE;
        match f.seek(offset) {
            Ok(()) => {},
            Err(e) => {
                return Err(MetadataError::Io(e));
            },
        }
        mda.load_region(f)
    }

    /// Loads the metadata of the newer slot. Returns nothing where no
    /// metadata was ever saved. Where there is a header, it is an error if
    /// the metadata cannot be read from either copy.
    pub fn load_state<F: ByteStream>(&self, header_size: u64, f: &mut F) -> (r: MetadataResult<
        Option<Vec<u8>>,
    >)
        requires
            self.wf(),
            self.fits_behind(header_size),
        ensures
            final(f).predictable() == old(f).predictable(),
            old(f).predictable() ==> final(f).unreadable() == old(f).unreadable(),
            r is Ok ==> (r matches Ok(None) <==> self.mdas[self.newer_slot()] is None),
            self.mdas[self.newer_slot()] is None ==> r is Ok,
            r matches Ok(Some(data)) ==> self.mdas[self.newer_slot()] matches Some(header)
                && data@.len() == header.used && crc32c(data@) == header.data_crc,
            old(f).predictable() ==> {
                &&& final(f).bytes() == old(f).bytes()
                &&& final(f).flushed() == old(f).flushed()
                &&& state_read(r) == self.state_on_device(
                    old(f).bytes(),
                    old(f).unreadable(),
                    header_size,
                )
            },
    {
        let newer_region = self.newer();
        let mda = match &self.mdas[newer_region] {
            None => {
                return Ok(None);
            },
            Some(mda) => mda,
        };
        let region_size = self.region_size * BYTES_PER_SECTOR;
        match MDARegions::load_region(header_size, newer_region, region_size, mda, f) {
            Ok(data) => Ok(Some(data)),
            Err(_) => match MDARegions::load_region(
                header_size,
                newer_region + 2,
                region_size,
                mda,
                f,
            ) {
                Ok(data) => Ok(Some(data)),
                Err(e) => Err(e),
            },
        }
    }

    /// The index of the older slot: the first that was never written, else
    /// the one that was written earlier, the second on a tie.
    pub fn older(&self) -> (index: usize)
        ensures
            index == self.older_slot(),
            index < 2,
    {
        match (&self.mdas[0], &self.mdas[1]) {
            (None, _) => 0,
            (_, None) => 1,
            (Some(mda0), Some(mda1)) => {
                if mda0.last_updated.before(&mda1.last_updated) {
                    0
                } else {
                    1
                }
            },
        }
    }

    /// The index of the newer slot: the other one.
    pub fn newer(&self) -> (index: usize)
        ensures
            index == self.newer_slot(),
            index < 2,
    {
        1 - self.older()
    }

    /// When metadata was last saved to these regions, if ever.
    pub fn last_update_time(&self) -> (time: Option<&Timestamp>)
        ensures
            match time {
                Some(t) => self.newest() == Some(*t),
                None => self.newest() is None,
            },
    {
        match &self.mdas[self.newer()] {
            Some(header) => Some(&header.last_updated),
            None => None,
        }
    }
}

/// A region header takes 32 bytes.
pub proof fn lemma_header_bytes_len(header: MDAHeader)
    ensures
        header.header_bytes().len() == MDA_REGION_HDR_SIZE,
        header.header_bytes().subrange(4, 32) == header.header_body(),
{
    lemma_auto_spec_u64_to_from_le_bytes();
    lemma_auto_spec_u32_to_from_le_bytes();
    assert(header.header_bytes().subrange(4, 32) =~= header.header_body());
}

/// Round trip of the region header: a header with a time behind the epoch,
/// whose metadata fits into the region, reads back as it was written; one
/// whose seconds are zero reads back as a region that was never written.
pub proof fn lemma_region_header_round_trip(header: MDAHeader, region_size: u64)
    requires
        header.last_updated.secs >= 0,
    ensures
        decode_region_header(header.header_bytes(), region_size) == (
        if header.last_updated.secs == 0 {
            Ok::<Option<MDAHeader>, MetadataError>(None)
        } else if region_size_fault(header.used, region_size) is Some {
            Err::<Option<MDAHeader>, MetadataError>(
                MetadataError::Invalid(region_size_fault(header.used, region_size).unwrap()),
            )
        } else {
            Ok::<Option<MDAHeader>, MetadataError>(Some(header))
        }),
{
    lemma_header_bytes_len(header);
    lemma_auto_spec_u64_to_from_le_bytes();
    lemma_auto_spec_u32_to_from_le_bytes();
    let bytes = header.header_bytes();
    assert(bytes.subrange(0, 4) =~= spec_u32_to_le_bytes(crc32c(header.header_body())));
    assert(bytes.subrange(4, 8) =~= spec_u32_to_le_bytes(header.data_crc));
    assert(bytes.subrange(8, 16) =~= spec_u64_to_le_bytes(header.used));
    assert(bytes.subrange(16, 24) =~= spec_u64_to_le_bytes(header.last_updated.secs as u64));
    assert(bytes.subrange(24, 28) =~= spec_u32_to_le_bytes(header.last_updated.nsecs));
    assert(bytes[28] == STRAT_REGION_HDR_VERSION);
    assert(bytes[29] == STRAT_METADATA_VERSION);
}

} // verus!
