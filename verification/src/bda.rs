//! The block device area: the static header and the metadata regions of one
//! device, and the operations on both.

use crate::checksum::crc32c;
use crate::error::{Invalid, MetadataError, MetadataResult};
use crate::mda::{
    area_fits, lemma_header_bytes_len, lemma_region_headers_stop, region_offset, slots_on_device,
    state_read, with_region_headers, MDAHeader, MDARegions, Timestamp, BYTES_PER_SECTOR,
    MDA_REGION_HDR_SIZE, NUM_MDA_REGIONS,
};
use crate::static_header::{
    setup_flushed, setup_image, setup_result, DevUuid, PoolUuid, StaticHeader,
    BDA_STATIC_HDR_SECTORS, BDA_STATIC_HDR_SIZE, SECTOR_SIZE,
};
use crate::stream::{
    flushed_once, overwrite, read_at, read_outcome, write_at, write_outcome, zeros, ByteStream,
    IoError,
};
use vstd::prelude::*;

verus! {

/// The metadata of one block device.
#[derive(Clone, Copy, Debug, PartialEq, Eq)]
pub struct BDA {
    pub header: StaticHeader,
    pub regions: MDARegions,
}

/// Which copy of the static header is meant.
#[derive(Clone, Copy, Debug, PartialEq, Eq, Structural)]
pub enum MetadataLocation {
    Both,
    First,
    Second,
}

/// Offset of the first copy of the signature block.
pub const FIRST_SIGBLOCK_OFFSET: u64 = 512;

/// Offset of the second copy of the signature block.
pub const SECOND_SIGBLOCK_OFFSET: u64 = 4608;

/// Bytes that one copy of the static header takes: eight sectors.
pub const STATIC_HDR_COPY_SIZE: u64 = 4096;

/// What reading both signature blocks gives on a predictable stream that
/// holds `bytes` and cannot be read at `unreadable`: the two sectors, with
/// zeros in place of one that cannot be read, or the failure of the first
/// where neither can be read.
pub open spec fn read_copies(bytes: Seq<u8>, unreadable: Set<int>) -> Result<
    (Seq<u8>, Seq<u8>),
    IoError,
> {
    let first = read_outcome(
        bytes,
        unreadable,
        FIRST_SIGBLOCK_OFFSET as int,
        SECTOR_SIZE as int,
    );
    let second = read_outcome(
        bytes,
        unreadable,
        SECOND_SIGBLOCK_OFFSET as int,
        SECTOR_SIZE as int,
    );
    match (first, second) {
        (Err(e), Err(_)) => Err(e),
        (Ok(buf_loc_1), Ok(buf_loc_2)) => Ok((buf_loc_1, buf_loc_2)),
        (Ok(buf_loc_1), Err(_)) => Ok((buf_loc_1, zeros(SECTOR_SIZE as nat))),
        (Err(_), Ok(buf_loc_2)) => Ok((zeros(SECTOR_SIZE as nat), buf_loc_2)),
    }
}

/// The result of reading both signature blocks, with the sectors as
/// sequences.
pub open spec fn sectors_read(r: Result<(Vec<u8>, Vec<u8>), IoError>) -> Result<
    (Seq<u8>, Seq<u8>),
    IoError,
> {
    match r {
        Ok((a, b)) => Ok((a@, b@)),
        Err(e) => Err(e),
    }
}

/// One copy of the static header: a sector of zeros, the signature block,
/// and six sectors of zeros.
pub open spec fn header_copy(sigblock: Seq<u8>) -> Seq<u8> {
    zeros(SECTOR_SIZE as nat) + sigblock + zeros(6 * SECTOR_SIZE as nat)
}

/// Number of bytes that a stream must hold for the copies at `which` to be
/// written.
pub open spec fn copies_end(which: MetadataLocation) -> int {
    match which {
        MetadataLocation::First => STATIC_HDR_COPY_SIZE as int,
        _ => BDA_STATIC_HDR_SIZE as int,
    }
}

/// What a stream that held `bytes` holds after one copy of the static header
/// was written at `at`, in three writes: a sector of zeros, the signature
/// block, six sectors of zeros. On a stream that is long enough that is
/// `header_copy(sigblock)` at `at`; on a shorter one, the writes that fit.
pub open spec fn with_copy_at(bytes: Seq<u8>, at: int, sigblock: Seq<u8>) -> Seq<u8> {
    overwrite(
        overwrite(overwrite(bytes, at, zeros(SECTOR_SIZE as nat)), at + SECTOR_SIZE, sigblock),
        at + 2 * SECTOR_SIZE,
        zeros(6 * SECTOR_SIZE as nat),
    )
}

/// The bytes of a stream after the copies of the static header at `which`
/// were written with `sigblock`.
pub open spec fn with_copies(bytes: Seq<u8>, sigblock: Seq<u8>, which: MetadataLocation) -> Seq<
    u8,
> {
    match which {
        MetadataLocation::First => with_copy_at(bytes, 0, sigblock),
        MetadataLocation::Second => with_copy_at(bytes, STATIC_HDR_COPY_SIZE as int, sigblock),
        MetadataLocation::Both => with_copy_at(
            with_copy_at(bytes, 0, sigblock),
            STATIC_HDR_COPY_SIZE as int,
            sigblock,
        ),
    }
}

/// What writing the copies of the static header at `which` makes durable, in
/// order: the stream after each copy that was written in full.
pub open spec fn copies_flushed(bytes: Seq<u8>, sigblock: Seq<u8>, which: MetadataLocation) -> Seq<
    Seq<u8>,
> {
    match which {
        MetadataLocation::Both => flushed_once(
            with_copies(bytes, sigblock, MetadataLocation::First),
            STATIC_HDR_COPY_SIZE as int,
        ) + flushed_once(
            with_copies(bytes, sigblock, MetadataLocation::Both),
            BDA_STATIC_HDR_SIZE as int,
        ),
        _ => flushed_once(with_copies(bytes, sigblock, which), copies_end(which)),
    }
}

/// Why a device area with a metadata area of `mda_size` sectors cannot be
/// handled, if so: the offsets of its regions in bytes would not fit into 64
/// bits.
pub open spec fn bda_size_fault(mda_size: u64) -> Option<Invalid> {
    if !area_fits(BDA_STATIC_HDR_SIZE, mda_size) {
        Some(Invalid::MdaSizeTooLarge(mda_size))
    } else {
        None
    }
}

/// Size in bytes of one region of a metadata area of `mda_size` sectors.
pub open spec fn region_bytes_of(mda_size: u64) -> u64 {
    ((mda_size / NUM_MDA_REGIONS) * BYTES_PER_SECTOR) as u64
}

/// What a predictable stream that held `bytes` holds after a device area with
/// `header` was initialized on it: both copies of the static header, and the
/// header of a region that was never written at the start of each region.
pub open spec fn initialized_image(bytes: Seq<u8>, header: StaticHeader) -> Seq<u8> {
    with_region_headers(
        with_copies(bytes, header.sigblock(), MetadataLocation::Both),
        BDA_STATIC_HDR_SIZE,
        region_bytes_of(header.mda_size),
        MDAHeader::empty().header_bytes(),
        4,
    )
}

/// Number of bytes that a stream must hold for a device area with a metadata
/// area of `mda_size` sectors to be initialized on it: up to the end of the
/// header of the last region.
pub open spec fn initialized_end(mda_size: u64) -> int {
    region_offset(BDA_STATIC_HDR_SIZE, 3, region_bytes_of(mda_size)) + MDA_REGION_HDR_SIZE
}

/// What initializing a device area with `header` makes durable on a
/// predictable stream that held `bytes`, in order: the stream after each copy
/// of the static header was written, then the stream with the region headers
/// written.
pub open spec fn initialized_flushed(bytes: Seq<u8>, header: StaticHeader) -> Seq<Seq<u8>> {
    copies_flushed(bytes, header.sigblock(), MetadataLocation::Both) + flushed_once(
        initialized_image(bytes, header),
        initialized_end(header.mda_size),
    )
}

/// What `load` finds on a predictable stream that holds `bytes` and cannot
/// be read at `unreadable`: nothing where the device has no static header,
/// else the header and the two slots.
pub open spec fn load_result(bytes: Seq<u8>, unreadable: Set<int>) -> MetadataResult<
    Option<(StaticHeader, (Option<MDAHeader>, Option<MDAHeader>))>,
> {
    match setup_result(bytes, unreadable) {
        Err(e) => Err(e),
        Ok(None) => Ok(None),
        Ok(Some(header)) => match bda_size_fault(header.mda_size) {
            Some(fault) => Err(MetadataError::Invalid(fault)),
            None => match slots_on_device(
                setup_image(bytes, unreadable),
                unreadable,
                BDA_STATIC_HDR_SIZE,
                region_bytes_of(header.mda_size),
            ) {
                Err(e) => Err(e),
                Ok(slots) => Ok(Some((header, slots))),
            },
        },
    }
}

/// What was loaded: the header and the two slots.
pub open spec fn bda_loaded(r: MetadataResult<Option<BDA>>) -> MetadataResult<
    Option<(StaticHeader, (Option<MDAHeader>, Option<MDAHeader>))>,
> {
    match r {
        Err(e) => Err(e),
        Ok(None) => Ok(None),
        Ok(Some(bda)) => Ok(Some((bda.header, (bda.regions.mdas[0], bda.regions.mdas[1])))),
    }
}

/// Writes one copy of the static header at the position of the stream.
fn write_region<F: ByteStream>(f: &mut F, bda_buf: &[u8], zeroed: &[u8]) -> (r: Result<
    (),
    IoError,
>)
    requires
        bda_buf@.len() == SECTOR_SIZE,
        zeroed@ == zeros(BDA_STATIC_HDR_SIZE as nat),
    ensures
        final(f).predictable() == old(f).predictable(),
        old(f).predictable() ==> final(f).unreadable() == old(f).unreadable(),
        old(f).predictable() ==> {
            &&& final(f).bytes() == with_copy_at(
                old(f).bytes(),
                old(f).position() as int,
                bda_buf@,
            )
            &&& r == write_outcome(
                old(f).bytes(),
                old(f).position() as int,
                STATIC_HDR_COPY_SIZE as int,
            )
            &&& final(f).flushed() == old(f).flushed() + flushed_once(
                final(f).bytes(),
                old(f).position() + STATIC_HDR_COPY_SIZE,
            )
            &&& r is Ok ==> final(f).position() == old(f).position() + STATIC_HDR_COPY_SIZE
        },
{
    proof {
        assert(zeroed@.subrange(0, 512) =~= zeros(512));
        assert(zeroed@.subrange(0, 3072) =~= zeros(3072));
    }
    // Zero 1 unused sector
    match f.write_all(&zeroed[0..SECTOR_SIZE]) {
        Ok(()) => {},
        Err(e) => {
            return Err(e);
        },
    }
    match f.write_all(bda_buf) {
        Ok(()) => {},
        Err(e) => {
            return Err(e);
        },
    }
    // Zero 6 unused sectors
    match f.write_all(&zeroed[0..SECTOR_SIZE * 6]) {
        Ok(()) => {},
        Err(e) => {
            return Err(e);
        },
    }
    match f.sync_all() {
        Ok(()) => {},
        Err(e) => {
            return Err(e);
        },
    }
    proof {
        if old(f).predictable() {
            assert(f.flushed() =~= old(f).flushed() + seq![f.bytes()]);
        }
    }
    Ok(())
}

/// A sector of zeros.
fn zero_sector() -> (sector: Vec<u8>)
    ensures
        sector@ == zeros(SECTOR_SIZE as nat),
{
    let sector = vec![0u8; SECTOR_SIZE];
    assert(sector@ =~= zeros(SECTOR_SIZE as nat));
    sector
}

impl BDA {
    /// Whether the header and the regions belong together and the
    /// metadata area can be addressed.
    pub open spec fn wf(self) -> bool {
        &&& self.regions.wf()
        &&& self.regions.region_size == self.header.mda_size / NUM_MDA_REGIONS
        &&& bda_size_fault(self.header.mda_size) is None
    }

    /// Whether the number of sectors that the device area takes can be
    /// counted in 64 bits. The size kept free behind the metadata area is
    /// taken from the device as it stands there, so it need not be.
    pub open spec fn size_fits(self) -> bool {
        BDA_STATIC_HDR_SECTORS + self.header.mda_size + self.header.reserved_size <= u64::MAX
    }

    /// Reads both copies of the signature block, in the order in which they
    /// lie on the device. Each is read on its own, so that one bad sector
    /// does not hide the other: a sector that cannot be read comes back as
    /// zeros, and only where neither can be read is the failure of the first
    /// returned.
    pub fn read<F: ByteStream>(f: &mut F) -> (r: Result<(Vec<u8>, Vec<u8>), IoError>)
        ensures
            final(f).predictable() == old(f).predictable(),
            old(f).predictable() ==> final(f).unreadable() == old(f).unreadable(),
            r matches Ok((a, b)) ==> a@.len() == SECTOR_SIZE && b@.len() == SECTOR_SIZE,
            old(f).predictable() ==> {
                &&& final(f).bytes() == old(f).bytes()
                &&& final(f).flushed() == old(f).flushed()
                &&& sectors_read(r) == read_copies(old(f).bytes(), old(f).unreadable())
            },
    {
        let loc_1_read_result = read_at(f, FIRST_SIGBLOCK_OFFSET, SECTOR_SIZE as u64);
        let loc_2_read_result = read_at(f, SECOND_SIGBLOCK_OFFSET, SECTOR_SIZE as u64);
        match (loc_1_read_result, loc_2_read_result) {
            (Err(loc_1_err), Err(_)) => Err(loc_1_err),
            (Ok(buf_loc_1), Ok(buf_loc_2)) => Ok((buf_loc_1, buf_loc_2)),
            (Ok(buf_loc_1), Err(_)) => Ok((buf_loc_1, zero_sector())),
            (Err(_), Ok(buf_loc_2)) => Ok((zero_sector(), buf_loc_2)),
        }
    }

    /// Writes `bda_buf` as the signature block of the copies at `which`,
    /// with zeros in the sectors around it, and makes each copy durable
    /// before it goes on.
    pub fn write<F: ByteStream>(f: &mut F, bda_buf: &[u8], which: MetadataLocation) -> (r: Result<
        (),
        IoError,
    >)
        requires
            bda_buf@.len() == SECTOR_SIZE,
        ensures
            final(f).predictable() == old(f).predictable(),
            old(f).predictable() ==> final(f).unreadable() == old(f).unreadable(),
            old(f).predictable() ==> {
                &&& final(f).bytes() == with_copies(old(f).bytes(), bda_buf@, which)
                &&& r == write_outcome(old(f).bytes(), 0, copies_end(which))
                &&& final(f).flushed() == old(f).flushed() + copies_flushed(
                    old(f).bytes(),
                    bda_buf@,
                    which,
                )
            },
    {
        let zeroed = [0u8; 8192];
        assert(zeroed@ =~= zeros(BDA_STATIC_HDR_SIZE as nat));
        match f.seek(0) {
            Ok(()) => {},
            Err(e) => {
                return Err(e);
            },
        }
        if which == MetadataLocation::Both || which == MetadataLocation::First {
            match write_region(f, bda_buf, &zeroed) {
                Ok(()) => {},
                Err(e) => {
                    return Err(e);
                },
            }
        } else {
            match f.seek(STATIC_HDR_COPY_SIZE) {
                Ok(()) => {},
                Err(e) => {
                    return Err(e);
                },
            }
        }
        if which == MetadataLocation::Both || which == MetadataLocation::Second {
            match write_region(f, bda_buf, &zeroed) {
                Ok(()) => {},
                Err(e) => {
                    return Err(e);
                },
            }
        }
        Ok(())
    }

    /// Initializes a device: writes both copies of the static header, then
    /// the headers of four regions without metadata.
    pub fn initialize<F: ByteStream>(
        f: &mut F,
        pool_uuid: PoolUuid,
        dev_uuid: DevUuid,
        mda_size: u64,
        blkdev_size: u64,
        initialization_time: u64,
    ) -> (r: MetadataResult<BDA>)
        requires
            area_fits(BDA_STATIC_HDR_SIZE, mda_size),
        ensures
            final(f).predictable() == old(f).predictable(),
            old(f).predictable() ==> final(f).unreadable() == old(f).unreadable(),
            r matches Ok(bda) ==> {
                &&& bda.wf()
                &&& bda.size_fits()
                &&& bda.header == StaticHeader::fresh(
                    pool_uuid,
                    dev_uuid,
                    mda_size,
                    blkdev_size,
                    initialization_time,
                )
                &&& bda.regions.mdas[0] is None
                &&& bda.regions.mdas[1] is None
            },
            r matches Err(e) ==> e is Io,
            old(f).predictable() ==> {
                let header = StaticHeader::fresh(
                    pool_uuid,
                    dev_uuid,
                    mda_size,
                    blkdev_size,
                    initialization_time,
                );
                &&& final(f).bytes() == initialized_image(old(f).bytes(), header)
                &&& final(f).flushed() == old(f).flushed() + initialized_flushed(
                    old(f).bytes(),
                    header,
                )
                &&& if initialized_end(mda_size) <= old(f).bytes().len() {
                    r is Ok
                } else {
                    r == Err::<BDA, MetadataError>(MetadataError::Io(IoError::WriteZero))
                }
            },
    {
        let header = StaticHeader::new(
            pool_uuid,
            dev_uuid,
            mda_size,
            blkdev_size,
            initialization_time,
        );
        let sigblock = header.sigblock_to_buf();
        assert(region_bytes_of(mda_size) * 3 >= 0) by (nonlinear_arith);
        match BDA::write(f, &sigblock, MetadataLocation::Both) {
            Ok(()) => {},
            Err(e) => {
                proof {
                    if old(f).predictable() {
                        // No region header fits where the static header
                        // does not.
                        lemma_header_bytes_len(MDAHeader::empty());
                        lemma_region_headers_stop(
                            f.bytes(),
                            BDA_STATIC_HDR_SIZE,
                            region_bytes_of(mda_size),
                            MDAHeader::empty().header_bytes(),
                            0,
                            4,
                        );
                    }
                }
                return Err(MetadataError::Io(e));
            },
        }
        let regions = match MDARegions::initialize(BDA_STATIC_HDR_SIZE, header.mda_size, f) {
            Ok(regions) => regions,
            Err(e) => {
                return Err(e);
            },
        };
        Ok(BDA { header, regions })
    }

    /// Loads the metadata of a device. Returns nothing where the device has
    /// no static header. A static header whose metadata area cannot be
    /// addressed is an error.
    pub fn load<F: ByteStream>(f: &mut F) -> (r: MetadataResult<Option<BDA>>)
        ensures
            final(f).predictable() == old(f).predictable(),
            old(f).predictable() ==> final(f).unreadable() == old(f).unreadable(),
            r matches Ok(Some(bda)) ==> bda.wf() && bda.header.is_valid(),
            old(f).predictable() ==> {
                &&& bda_loaded(r) == load_result(old(f).bytes(), old(f).unreadable())
                &&& final(f).bytes() == setup_image(old(f).bytes(), old(f).unreadable())
                &&& final(f).flushed() == old(f).flushed() + setup_flushed(
                    old(f).bytes(),
                    old(f).unreadable(),
                )
            },
    {
        let header = match StaticHeader::setup(f) {
            Ok(Some(header)) => header,
            Ok(None) => {
                return Ok(None);
            },
            Err(e) => {
                return Err(e);
            },
        };
        match BDA::check_size(&header) {
            Ok(()) => {},
            Err(e) => {
                return Err(e);
            },
        }
        let regions = match MDARegions::load(BDA_STATIC_HDR_SIZE, header.mda_size, f) {
            Ok(regions) => regions,
            Err(e) => {
                return Err(e);
            },
        };
        Ok(Some(BDA { header, regions }))
    }

    /// Checks that the metadata area that a static header describes can be
    /// addressed.
    pub fn check_size(header: &StaticHeader) -> (r: MetadataResult<()>)
        ensures
            r == match bda_size_fault(header.mda_size) {
                Some(fault) => Err::<(), MetadataError>(MetadataError::Invalid(fault)),
                None => Ok(()),
            },
    {
        // The largest metadata area whose last byte has an offset below 2^64.
        if header.mda_size / NUM_MDA_REGIONS > (u64::MAX - BDA_STATIC_HDR_SIZE) / (NUM_MDA_REGIONS
            * BYTES_PER_SECTOR) {
            return Err(MetadataError::Invalid(Invalid::MdaSizeTooLarge(header.mda_size)));
        }
        Ok(())
    }

    /// Zeroes the static header of a device, which is then no longer seen as
    /// belonging to a pool.
    pub fn wipe<F: ByteStream>(f: &mut F) -> (r: MetadataResult<()>)
        ensures
            final(f).predictable() == old(f).predictable(),
            old(f).predictable() ==> final(f).unreadable() == old(f).unreadable(),
            r matches Err(e) ==> e is Io,
            old(f).predictable() ==> {
                &&& final(f).bytes() == overwrite(
                    old(f).bytes(),
                    0,
                    zeros(BDA_STATIC_HDR_SIZE as nat),
                )
                &&& final(f).flushed() == old(f).flushed() + flushed_once(
                    final(f).bytes(),
                    BDA_STATIC_HDR_SIZE as int,
                )
                &&& if BDA_STATIC_HDR_SIZE <= old(f).bytes().len() {
                    r is Ok
                } else {
                    r == Err::<(), MetadataError>(MetadataError::Io(IoError::WriteZero))
                }
            },
    {
        let zeroed = [0u8; 8192];
        assert(zeroed@ =~= zeros(BDA_STATIC_HDR_SIZE as nat));
        // Wiping the static header should do it
        match write_at(f, 0, &zeroed) {
            Ok(()) => {},
            Err(e) => {
                return Err(MetadataError::Io(e));
            },
        }
        match f.sync_all() {
            Ok(()) => {},
            Err(e) => {
                return Err(MetadataError::Io(e));
            },
        }
        proof {
            if old(f).predictable() {
                assert(f.flushed() =~= old(f).flushed() + seq![f.bytes()]);
            }
        }
        Ok(())
    }

    /// Why a save of `metadata` at `time` would be turned down, if it
    /// would: see `MDARegions::check_save`.
    pub fn check_save(&self, time: &Timestamp, metadata: &[u8]) -> (fault: Option<Invalid>)
        requires
            self.wf(),
        ensures
            fault == self.regions.save_fault(*time, metadata@),
    {
        self.regions.check_save(time, metadata)
    }

    /// Saves metadata to the device: see `MDARegions::save_state`.
    pub fn save_state<F: ByteStream>(&mut self, time: &Timestamp, metadata: &[u8], f: &mut F) -> (r:
        MetadataResult<()>)
        requires
            old(self).wf(),
            time.secs >= 0,
        ensures
            final(f).predictable() == old(f).predictable(),
            old(f).predictable() ==> final(f).unreadable() == old(f).unreadable(),
            final(self).wf(),
            final(self).header == old(self).header,
            r is Ok ==> final(self).regions.is_saved_from(old(self).regions, *time, metadata@),
            r is Err ==> *final(self) == *old(self),
            match old(self).regions.save_fault(*time, metadata@) {
                Some(fault) => {
                    &&& r == Err::<(), MetadataError>(MetadataError::Invalid(fault))
                    &&& old(f).predictable() ==> {
                        &&& final(f).bytes() == old(f).bytes()
                        &&& final(f).flushed() == old(f).flushed()
                    }
                },
                None => {
                    &&& r matches Err(e) ==> e is Io
                    &&& old(f).predictable() ==> {
                        &&& final(f).bytes() == old(self).regions.saved_image(
                            old(f).bytes(),
                            BDA_STATIC_HDR_SIZE,
                            *time,
                            metadata@,
                        )
                        &&& final(f).flushed() == old(f).flushed() + old(
                            self,
                        ).regions.saved_flushed(
                            old(f).bytes(),
                            BDA_STATIC_HDR_SIZE,
                            *time,
                            metadata@,
                        )
                        &&& if old(self).regions.saved_end(BDA_STATIC_HDR_SIZE, metadata@)
                            <= old(f).bytes().len() {
                            r is Ok
                        } else {
                            r == Err::<(), MetadataError>(MetadataError::Io(IoError::WriteZero))
                        }
                    }
                },
            },
    {
        self.regions.save_state(BDA_STATIC_HDR_SIZE, time, metadata, f)
    }

    /// Reads the latest metadata from the device: see
    /// `MDARegions::load_state`.
    pub fn load_state<F: ByteStream>(&self, f: &mut F) -> (r: MetadataResult<Option<Vec<u8>>>)
        requires
            self.wf(),
        ensures
            final(f).predictable() == old(f).predictable(),
            old(f).predictable() ==> final(f).unreadable() == old(f).unreadable(),
            r is Ok ==> (r matches Ok(None) <==> self.regions.mdas[self.regions.newer_slot()]
                is None),
            self.regions.mdas[self.regions.newer_slot()] is None ==> r is Ok,
            r matches Ok(Some(data)) ==> self.regions.mdas[self.regions.newer_slot()] matches Some(
                header,
            ) && data@.len() == header.used && crc32c(data@) == header.data_crc,
            old(f).predictable() ==> {
                &&& final(f).bytes() == old(f).bytes()
                &&& final(f).flushed() == old(f).flushed()
                &&& state_read(r) == self.regions.state_on_device(
                    old(f).bytes(),
                    old(f).unreadable(),
                    BDA_STATIC_HDR_SIZE,
                )
            },
    {
        self.regions.load_state(BDA_STATIC_HDR_SIZE, f)
    }

    /// When metadata was last saved to the device, if ever.
    pub fn last_update_time(&self) -> (time: Option<&Timestamp>)
        ensures
            match time {
                Some(t) => self.regions.newest() == Some(*t),
                None => self.regions.newest() is None,
            },
    {
        self.regions.last_update_time()
    }

    /// The UUID of the device.
    pub fn dev_uuid(&self) -> (uuid: DevUuid)
        ensures
            uuid == self.header.dev_uuid,
    {
        self.header.dev_uuid
    }

    /// The UUID of the pool that the device belongs to.
    pub fn pool_uuid(&self) -> (uuid: PoolUuid)
        ensures
            uuid == self.header.pool_uuid,
    {
        self.header.pool_uuid
    }

    /// The size of the device in sectors.
    pub fn dev_size(&self) -> (size: u64)
        ensures
            size == self.header.blkdev_size,
    {
        self.header.blkdev_size
    }

    /// The number of sectors that the device area itself takes: the static
    /// header, the metadata area and what is kept free behind it.
    pub fn size(&self) -> (size: u64)
        requires
            self.size_fits(),
        ensures
            size == BDA_STATIC_HDR_SECTORS + self.header.mda_size + self.header.reserved_size,
    {
        BDA_STATIC_HDR_SECTORS + self.header.mda_size + self.header.reserved_size
    }

    /// The most metadata that a region could be asked to hold, in sectors.
    pub fn max_data_size(&self) -> (size: u64)
        ensures
            size == self.regions.region_size,
    {
        self.regions.max_data_size()
    }

    /// Seconds since the epoch at which the device was initialized.
    pub fn initialization_time(&self) -> (time: u64)
        ensures
            time == self.header.initialization_time,
    {
        self.header.initialization_time
    }
}

} // verus!
