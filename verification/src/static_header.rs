//! The static header: the 512-byte signature block that marks a device as
//! belonging to a pool, kept in two copies.

use crate::bda::{copies_end, copies_flushed, read_copies, with_copies, MetadataLocation, BDA};
use crate::buffer::{put, same_bytes};
use crate::checksum::{checksum_castagnoli, crc32c};
use crate::endian::{read_u32, read_u64, u32_bytes, u64_bytes};
use crate::error::{Invalid, MetadataError, MetadataResult};
use crate::mda::{mda_size_fault, validate_mda_size};
use crate::stream::{zeros, ByteStream, IoError};
use crate::uuid_text::{
    all_hex_digits, hex_value, lemma_hex_digits_are_utf8, lemma_uuid_text_round_trip, parse_uuid,
    simple_uuid, uuid_text,
};
use vstd::bytes::{
    lemma_auto_spec_u32_to_from_le_bytes, lemma_auto_spec_u64_to_from_le_bytes,
    spec_u32_from_le_bytes, spec_u32_to_le_bytes, spec_u64_from_le_bytes, spec_u64_to_le_bytes,
};
use vstd::prelude::*;
use vstd::utf8::valid_utf8;

verus! {

/// Number of bytes in a sector.
pub const SECTOR_SIZE: usize = 512;

/// Sectors that the two copies of the static header take.
pub const BDA_STATIC_HDR_SECTORS: u64 = 16;

/// Bytes that the two copies of the static header take.
pub const BDA_STATIC_HDR_SIZE: u64 = 8192;

/// Sectors kept free behind the metadata area: 3 MiB.
pub const MDA_RESERVED_SECTORS: u64 = 6144;

/// Version of the signature block.
pub const STRAT_SIGBLOCK_VERSION: u8 = 1;

/// The magic number of a signature block.
pub const STRAT_MAGIC: [u8; 16] = [
    0x21, 0x53, 0x74, 0x72, 0x61, 0x30, 0x74, 0x69, 0x73, 0x86, 0xff, 0x02, 0x5e, 0x41, 0x72, 0x68,
];

/// UUID of a pool, as a number.
pub type PoolUuid = u128;

/// UUID of a device, as a number.
pub type DevUuid = u128;

/// What a signature block says of its device.
#[derive(Clone, Copy, Debug, PartialEq, Eq, Structural)]
pub struct StaticHeader {
    /// Size of the device in sectors.
    pub blkdev_size: u64,
    pub pool_uuid: PoolUuid,
    pub dev_uuid: DevUuid,
    /// Size of the metadata area in sectors.
    pub mda_size: u64,
    /// Size of the area kept free behind the metadata area, in sectors.
    pub reserved_size: u64,
    pub flags: u64,
    /// Seconds since the epoch at which the device was initialized.
    pub initialization_time: u64,
}

/// The UUID that a field of 32 bytes holds.
pub open spec fn decode_uuid(text: Seq<u8>) -> MetadataResult<u128> {
    if !valid_utf8(text) {
        Err(MetadataError::Utf8)
    } else if !all_hex_digits(text) {
        Err(MetadataError::Uuid)
    } else {
        Ok(hex_value(text) as u128)
    }
}

/// What a sector says as a signature block: nothing where the magic number
/// is missing, a header where all checks pass, else the first fault.
pub open spec fn decode_sigblock(buf: Seq<u8>) -> MetadataResult<Option<StaticHeader>>
    recommends
        buf.len() == SECTOR_SIZE,
{
    if buf.subrange(4, 20) != STRAT_MAGIC@ {
        Ok(None)
    } else if crc32c(buf.subrange(4, 512)) != spec_u32_from_le_bytes(buf.subrange(0, 4)) {
        Err(MetadataError::Invalid(Invalid::HeaderCrc))
    } else if buf[28] != STRAT_SIGBLOCK_VERSION {
        Err(MetadataError::Invalid(Invalid::SigblockVersion(buf[28])))
    } else {
        match decode_uuid(buf.subrange(32, 64)) {
            Err(e) => Err(e),
            Ok(pool_uuid) => match decode_uuid(buf.subrange(64, 96)) {
                Err(e) => Err(e),
                Ok(dev_uuid) => {
                    let mda_size = spec_u64_from_le_bytes(buf.subrange(96, 104));
                    match mda_size_fault(mda_size) {
                        Some(fault) => Err(MetadataError::Invalid(fault)),
                        None => Ok(
                            Some(
                                StaticHeader {
                                    blkdev_size: spec_u64_from_le_bytes(buf.subrange(20, 28)),
                                    pool_uuid,
                                    dev_uuid,
                                    mda_size,
                                    reserved_size: spec_u64_from_le_bytes(buf.subrange(104, 112)),
                                    flags: 0,
                                    initialization_time: spec_u64_from_le_bytes(
                                        buf.subrange(120, 128),
                                    ),
                                },
                            ),
                        ),
                    }
                },
            },
        }
    }
}

/// What the two copies of the signature block say together: the header of
/// the device, if it has one, and the copy that is to be rewritten from the
/// other, if any.
///
/// A copy without the magic number says nothing; one with the magic number
/// that fails a check is damaged. Where exactly one copy holds a header, that
/// header stands and the other copy is rewritten. Where both hold one and
/// they differ, the one that was initialized later stands, the second on a
/// tie. A damaged copy beside one that says nothing is an error, and so are
/// two damaged copies.
pub open spec fn reconciled(buf_loc_1: Seq<u8>, buf_loc_2: Seq<u8>) -> (
    MetadataResult<Option<StaticHeader>>,
    Option<MetadataLocation>,
) {
    match (decode_sigblock(buf_loc_1), decode_sigblock(buf_loc_2)) {
        (Ok(Some(loc_1)), Ok(Some(loc_2))) => {
            if loc_1 == loc_2 {
                (Ok(Some(loc_1)), None)
            } else if loc_1.initialization_time > loc_2.initialization_time {
                (Ok(Some(loc_1)), Some(MetadataLocation::Second))
            } else {
                (Ok(Some(loc_2)), Some(MetadataLocation::First))
            }
        },
        (Ok(None), Ok(None)) => (Ok(None), None),
        (Ok(Some(loc_1)), Ok(None)) => (Ok(Some(loc_1)), Some(MetadataLocation::Second)),
        (Ok(None), Ok(Some(loc_2))) => (Ok(Some(loc_2)), Some(MetadataLocation::First)),
        (Ok(Some(loc_1)), Err(_)) => (Ok(Some(loc_1)), Some(MetadataLocation::Second)),
        (Ok(None), Err(e)) => (Err(e), None),
        (Err(_), Ok(Some(loc_2))) => (Ok(Some(loc_2)), Some(MetadataLocation::First)),
        (Err(e), Ok(None)) => (Err(e), None),
        (Err(_), Err(_)) => (Err(MetadataError::Invalid(Invalid::NoValidSigblock)), None),
    }
}

/// What `setup` returns on a predictable stream that holds `bytes` and
/// cannot be read at `unreadable`.
pub open spec fn setup_result(bytes: Seq<u8>, unreadable: Set<int>) -> MetadataResult<
    Option<StaticHeader>,
> {
    match read_copies(bytes, unreadable) {
        Err(e) => Err(MetadataError::Io(e)),
        Ok((buf_loc_1, buf_loc_2)) => {
            let (result, repair) = reconciled(buf_loc_1, buf_loc_2);
            if repair matches Some(which) && copies_end(which) > bytes.len() {
                Err(MetadataError::Io(IoError::WriteZero))
            } else {
                result
            }
        },
    }
}

/// What a predictable stream that held `bytes` holds after `setup`: the
/// same, or the same with one copy written anew from the other.
pub open spec fn setup_image(bytes: Seq<u8>, unreadable: Set<int>) -> Seq<u8> {
    match read_copies(bytes, unreadable) {
        Err(_) => bytes,
        Ok((buf_loc_1, buf_loc_2)) => match reconciled(buf_loc_1, buf_loc_2).1 {
            None => bytes,
            Some(MetadataLocation::Second) => with_copies(
                bytes,
                buf_loc_1,
                MetadataLocation::Second,
            ),
            Some(which) => with_copies(bytes, buf_loc_2, which),
        },
    }
}

/// What `setup` makes durable on a predictable stream that held `bytes`:
/// the stream with one copy written anew, if one was.
pub open spec fn setup_flushed(bytes: Seq<u8>, unreadable: Set<int>) -> Seq<Seq<u8>> {
    match read_copies(bytes, unreadable) {
        Err(_) => Seq::empty(),
        Ok((buf_loc_1, buf_loc_2)) => match reconciled(buf_loc_1, buf_loc_2).1 {
            None => Seq::empty(),
            Some(MetadataLocation::Second) => copies_flushed(
                bytes,
                buf_loc_1,
                MetadataLocation::Second,
            ),
            Some(which) => copies_flushed(bytes, buf_loc_2, which),
        },
    }
}

/// What `device_identifiers` returns on a predictable stream that holds
/// `bytes`.
pub open spec fn identifiers_result(bytes: Seq<u8>, unreadable: Set<int>) -> MetadataResult<
    Option<(PoolUuid, DevUuid)>,
> {
    match setup_result(bytes, unreadable) {
        Ok(Some(header)) => Ok(Some((header.pool_uuid, header.dev_uuid))),
        Ok(None) => Ok(None),
        Err(e) => Err(e),
    }
}

impl StaticHeader {
    /// Compares the two copies of the signature block: returns the header of
    /// the device, if it has one, and the copy that is to be rewritten from
    /// the other, if any.
    pub fn reconcile(buf_loc_1: &[u8], buf_loc_2: &[u8]) -> (r: (
        MetadataResult<Option<StaticHeader>>,
        Option<MetadataLocation>,
    ))
        requires
            buf_loc_1@.len() == SECTOR_SIZE,
            buf_loc_2@.len() == SECTOR_SIZE,
        ensures
            r == reconciled(buf_loc_1@, buf_loc_2@),
    {
        match (
            StaticHeader::sigblock_from_buf(buf_loc_1),
            StaticHeader::sigblock_from_buf(buf_loc_2),
        ) {
            (Ok(loc_1), Ok(loc_2)) => {
                match (loc_1, loc_2) {
                    (Some(loc_1), Some(loc_2)) => {
                        if loc_1 == loc_2 {
                            (Ok(Some(loc_1)), None)
                        } else if loc_1.initialization_time > loc_2.initialization_time {
                            (Ok(Some(loc_1)), Some(MetadataLocation::Second))
                        } else {
                            (Ok(Some(loc_2)), Some(MetadataLocation::First))
                        }
                    },
                    (None, None) => (Ok(None), None),
                    // Copy 1 holds a header, copy 2 has no magic: rewrite copy 2
                    (Some(loc_1), None) => (Ok(Some(loc_1)), Some(MetadataLocation::Second)),
                    // Copy 2 holds a header, copy 1 has no magic: rewrite copy 1
                    (None, Some(loc_2)) => (Ok(Some(loc_2)), Some(MetadataLocation::First)),
                }
            },
            (Ok(loc_1), Err(loc_2)) => {
                match loc_1 {
                    Some(loc_1) => (Ok(Some(loc_1)), Some(MetadataLocation::Second)),
                    // Copy 1 has no signature and copy 2 is damaged: the
                    // device appears to be one of ours in a bad state.
                    None => (Err(loc_2), None),
                }
            },
            (Err(loc_1), Ok(loc_2)) => {
                match loc_2 {
                    Some(loc_2) => (Ok(Some(loc_2)), Some(MetadataLocation::First)),
                    // Copy 2 has no signature and copy 1 is damaged: the
                    // device appears to be one of ours in a bad state.
                    None => (Err(loc_1), None),
                }
            },
            (Err(_), Err(_)) => (Err(MetadataError::Invalid(Invalid::NoValidSigblock)), None),
        }
    }

    /// Tries to find a valid static header on a device.
    ///
    /// Returns the header that the copies agree on, or the later one where
    /// they differ, and rewrites the copy that is missing, damaged or older.
    /// Returns nothing where neither copy bears the magic number.
    pub fn setup<F: ByteStream>(f: &mut F) -> (r: MetadataResult<Option<StaticHeader>>)
        ensures
            final(f).predictable() == old(f).predictable(),
            old(f).predictable() ==> final(f).unreadable() == old(f).unreadable(),
            r matches Ok(Some(header)) ==> header.is_valid(),
            old(f).predictable() ==> {
                &&& r == setup_result(old(f).bytes(), old(f).unreadable())
                &&& final(f).bytes() == setup_image(old(f).bytes(), old(f).unreadable())
                &&& final(f).flushed() == old(f).flushed() + setup_flushed(
                    old(f).bytes(),
                    old(f).unreadable(),
                )
            },
    {
        let (buf_loc_1, buf_loc_2) = match BDA::read(f) {
            Ok(bufs) => bufs,
            Err(e) => {
                return Err(MetadataError::Io(e));
            },
        };
        let (result, repair) = StaticHeader::reconcile(buf_loc_1.as_slice(), buf_loc_2.as_slice());
        proof {
            lemma_decoded_is_valid(buf_loc_1@);
            lemma_decoded_is_valid(buf_loc_2@);
        }
        match repair {
            None => {},
            Some(MetadataLocation::Second) => {
                match BDA::write(f, buf_loc_1.as_slice(), MetadataLocation::Second) {
                    Ok(()) => {},
                    Err(e) => {
                        return Err(MetadataError::Io(e));
                    },
                }
            },
            Some(which) => {
                match BDA::write(f, buf_loc_2.as_slice(), which) {
                    Ok(()) => {},
                    Err(e) => {
                        return Err(MetadataError::Io(e));
                    },
                }
            },
        }
        result
    }

    /// Retrieves the UUIDs of the pool and of the device from a device that
    /// holds a valid static header. To own a device it is not enough that it
    /// bears the magic number: everything that `setup` checks must hold.
    pub fn device_identifiers<F: ByteStream>(f: &mut F) -> (r: MetadataResult<
        Option<(PoolUuid, DevUuid)>,
    >)
        ensures
            final(f).predictable() == old(f).predictable(),
            old(f).predictable() ==> final(f).unreadable() == old(f).unreadable(),
            old(f).predictable() ==> {
                &&& r == identifiers_result(old(f).bytes(), old(f).unreadable())
                &&& final(f).bytes() == setup_image(old(f).bytes(), old(f).unreadable())
                &&& final(f).flushed() == old(f).flushed() + setup_flushed(
                    old(f).bytes(),
                    old(f).unreadable(),
                )
            },
    {
        match StaticHeader::setup(f) {
            Ok(Some(sh)) => Ok(Some((sh.pool_uuid, sh.dev_uuid))),
            Ok(None) => Ok(None),
            Err(err) => Err(err),
        }
    }

    /// The header of a device that is initialized now: it has no flags, and
    /// keeps the usual number of sectors free behind the metadata area.
    pub open spec fn fresh(
        pool_uuid: PoolUuid,
        dev_uuid: DevUuid,
        mda_size: u64,
        blkdev_size: u64,
        initialization_time: u64,
    ) -> StaticHeader {
        StaticHeader {
            blkdev_size,
            pool_uuid,
            dev_uuid,
            mda_size,
            reserved_size: MDA_RESERVED_SECTORS,
            flags: 0,
            initialization_time,
        }
    }

    /// The header of a device that is initialized now.
    pub fn new(
        pool_uuid: PoolUuid,
        dev_uuid: DevUuid,
        mda_size: u64,
        blkdev_size: u64,
        initialization_time: u64,
    ) -> (header: StaticHeader)
        ensures
            header == StaticHeader::fresh(
                pool_uuid,
                dev_uuid,
                mda_size,
                blkdev_size,
                initialization_time,
            ),
    {
        StaticHeader {
            blkdev_size,
            pool_uuid,
            dev_uuid,
            mda_size,
            reserved_size: MDA_RESERVED_SECTORS,
            flags: 0,
            initialization_time,
        }
    }

    /// Whether a signature block can say this header: it has no flags, and
    /// its metadata area has an acceptable size.
    pub open spec fn is_valid(self) -> bool {
        &&& self.flags == 0
        &&& mda_size_fault(self.mda_size) is None
    }

    /// Bytes 4 to 512 of the signature block, which its checksum covers.
    pub open spec fn sigblock_body(self) -> Seq<u8> {
        STRAT_MAGIC@ + spec_u64_to_le_bytes(self.blkdev_size) + seq![
            STRAT_SIGBLOCK_VERSION,
            0u8,
            0u8,
            0u8,
        ] + uuid_text(self.pool_uuid) + uuid_text(self.dev_uuid) + spec_u64_to_le_bytes(
            self.mda_size,
        ) + spec_u64_to_le_bytes(self.reserved_size) + zeros(8) + spec_u64_to_le_bytes(
            self.initialization_time,
        ) + zeros(384)
    }

    /// The signature block of this header: the checksum, then what it covers.
    pub open spec fn sigblock(self) -> Seq<u8> {
        spec_u32_to_le_bytes(crc32c(self.sigblock_body())) + self.sigblock_body()
    }

    /// Generates the signature block, ready to be written to a device.
    pub fn sigblock_to_buf(&self) -> (buf: [u8; SECTOR_SIZE])
        ensures
            buf@ == self.sigblock(),
    {
        let mut buf = [0u8; SECTOR_SIZE];
        put(&mut buf, 4, &STRAT_MAGIC);
        let size = u64_bytes(self.blkdev_size);
        put(&mut buf, 20, &size);
        buf[28] = STRAT_SIGBLOCK_VERSION;
        let pool = simple_uuid(self.pool_uuid);
        let dev = simple_uuid(self.dev_uuid);
        proof {
            lemma_uuid_text_round_trip(self.pool_uuid);
            lemma_uuid_text_round_trip(self.dev_uuid);
            lemma_auto_spec_u64_to_from_le_bytes();
            lemma_auto_spec_u32_to_from_le_bytes();
        }
        put(&mut buf, 32, pool.as_str().as_bytes());
        put(&mut buf, 64, dev.as_str().as_bytes());
        let mda = u64_bytes(self.mda_size);
        put(&mut buf, 96, &mda);
        let reserved = u64_bytes(self.reserved_size);
        put(&mut buf, 104, &reserved);
        let time = u64_bytes(self.initialization_time);
        put(&mut buf, 120, &time);
        proof {
            assert(buf@.subrange(4, 512) =~= self.sigblock_body());
        }
        let hdr_crc = checksum_castagnoli(&buf[4..SECTOR_SIZE]);
        let crc = u32_bytes(hdr_crc);
        put(&mut buf, 0, &crc);
        proof {
            assert(buf@ =~= self.sigblock());
        }
        buf
    }

    /// Reads a signature block from a sector that came from a device.
    pub fn sigblock_from_buf(buf: &[u8]) -> (r: MetadataResult<Option<StaticHeader>>)
        requires
            buf@.len() == SECTOR_SIZE,
        ensures
            r == decode_sigblock(buf@),
    {
        if !same_bytes(&buf[4..20], &STRAT_MAGIC) {
            return Ok(None);
        }
        proof {
            assert(buf@.subrange(0, 4).subrange(0, 4) == buf@.subrange(0, 4));
            assert(buf@.subrange(20, 28).subrange(0, 8) == buf@.subrange(20, 28));
            assert(buf@.subrange(96, 104).subrange(0, 8) == buf@.subrange(96, 104));
            assert(buf@.subrange(104, 112).subrange(0, 8) == buf@.subrange(104, 112));
            assert(buf@.subrange(120, 128).subrange(0, 8) == buf@.subrange(120, 128));
        }
        let crc = checksum_castagnoli(&buf[4..SECTOR_SIZE]);
        if crc != read_u32(&buf[0..4]) {
            return Err(MetadataError::Invalid(Invalid::HeaderCrc));
        }
        let blkdev_size = read_u64(&buf[20..28]);
        let version = buf[28];
        if version != STRAT_SIGBLOCK_VERSION {
            return Err(MetadataError::Invalid(Invalid::SigblockVersion(version)));
        }
        let pool_uuid = match uuid_from_field(&buf[32..64]) {
            Ok(uuid) => uuid,
            Err(e) => {
                return Err(e);
            },
        };
        let dev_uuid = match uuid_from_field(&buf[64..96]) {
            Ok(uuid) => uuid,
            Err(e) => {
                return Err(e);
            },
        };
        let mda_size = read_u64(&buf[96..104]);
        match validate_mda_size(mda_size) {
            Ok(()) => {},
            Err(e) => {
                return Err(e);
            },
        }
        let reserved_size = read_u64(&buf[104..112]);
        let initialization_time = read_u64(&buf[120..128]);
        Ok(
            Some(
                StaticHeader {
                    pool_uuid,
                    dev_uuid,
                    blkdev_size,
                    mda_size,
                    reserved_size,
                    flags: 0,
                    initialization_time,
                },
            ),
        )
    }
}

/// A header that a sector holds is a valid one.
pub proof fn lemma_decoded_is_valid(buf: Seq<u8>)
    ensures
        decode_sigblock(buf) matches Ok(Some(header)) ==> header.is_valid(),
{
}

/// A signature block fills a sector and bears the magic number.
pub proof fn lemma_sigblock_shape(header: StaticHeader)
    ensures
        header.sigblock().len() == SECTOR_SIZE,
        header.sigblock().subrange(4, 20) == STRAT_MAGIC@,
        header.sigblock().subrange(4, 512) == header.sigblock_body(),
{
    lemma_uuid_text_round_trip(header.pool_uuid);
    lemma_uuid_text_round_trip(header.dev_uuid);
    lemma_auto_spec_u64_to_from_le_bytes();
    lemma_auto_spec_u32_to_from_le_bytes();
    let block = header.sigblock();
    assert(block.subrange(4, 20) =~= STRAT_MAGIC@);
    assert(block.subrange(4, 512) =~= header.sigblock_body());
}

/// Round trip of the static header: the signature block of a valid header
/// reads back as that header, field for field.
pub proof fn lemma_sigblock_round_trip(header: StaticHeader)
    requires
        header.is_valid(),
    ensures
        decode_sigblock(header.sigblock()) == Ok::<Option<StaticHeader>, MetadataError>(
            Some(header),
        ),
{
    lemma_sigblock_shape(header);
    lemma_uuid_text_round_trip(header.pool_uuid);
    lemma_uuid_text_round_trip(header.dev_uuid);
    lemma_auto_spec_u64_to_from_le_bytes();
    lemma_auto_spec_u32_to_from_le_bytes();
    let block = header.sigblock();
    assert(block.subrange(0, 4) =~= spec_u32_to_le_bytes(crc32c(header.sigblock_body())));
    assert(block.subrange(20, 28) =~= spec_u64_to_le_bytes(header.blkdev_size));
    assert(block[28] == STRAT_SIGBLOCK_VERSION);
    assert(block.subrange(32, 64) =~= uuid_text(header.pool_uuid));
    assert(block.subrange(64, 96) =~= uuid_text(header.dev_uuid));
    assert(block.subrange(96, 104) =~= spec_u64_to_le_bytes(header.mda_size));
    assert(block.subrange(104, 112) =~= spec_u64_to_le_bytes(header.reserved_size));
    assert(block.subrange(120, 128) =~= spec_u64_to_le_bytes(header.initialization_time));
}

/// Reads a UUID from a field of 32 bytes.
fn uuid_from_field(field: &[u8]) -> (r: MetadataResult<u128>)
    requires
        field@.len() == 32,
    ensures
        r == decode_uuid(field@),
{
    let text = match core::str::from_utf8(field) {
        Ok(text) => text,
        Err(_) => {
            return Err(MetadataError::Utf8);
        },
    };
    match parse_uuid(text) {
        Ok(uuid) => Ok(uuid),
        Err(_) => {
            proof {
                if all_hex_digits(field@) {
                    lemma_hex_digits_are_utf8(field@);
                }
            }
            Err(MetadataError::Uuid)
        },
    }
}

} // verus!
