use blockdev_metadata::error::{Invalid, MetadataError};
use blockdev_metadata::mda::{
    check_mda_region_size, validate_mda_size, MDAHeader, MDARegions, Timestamp,
    MDA_REGION_HDR_SIZE, MIN_MDA_SECTORS, STRAT_METADATA_VERSION, STRAT_REGION_HDR_VERSION,
};
use blockdev_metadata::static_header::BDA_STATIC_HDR_SIZE;
use blockdev_metadata::stream::{ByteStream, IoError, MemStream};
use byteorder::{ByteOrder, LittleEndian};
use chrono::Utc;
use crc::{Crc, CRC_32_ISCSI};

fn crc32c(data: &[u8]) -> u32 {
    Crc::<u32>::new(&CRC_32_ISCSI).checksum(data)
}

fn now() -> Timestamp {
    let now = Utc::now();
    Timestamp { secs: now.timestamp(), nsecs: now.timestamp_subsec_nanos() }
}

fn at(secs: i64, nsecs: u32) -> Timestamp {
    Timestamp { secs, nsecs }
}

/// A zeroed stream that holds the static header and a metadata area of the
/// smallest size.
fn min_stream() -> MemStream {
    MemStream::new(vec![0; BDA_STATIC_HDR_SIZE as usize + MIN_MDA_SECTORS as usize * 512])
}

const REGION_BYTES: usize = (MIN_MDA_SECTORS as usize / 4) * 512;

#[test]
/// Verify that default MDAHeader is all 0s except for CRC and versions.
fn test_default_mda_header() {
    let buf = MDAHeader::default().to_buf();

    // First 4 bytes is CRC. Then:
    assert!(buf[4..28].iter().all(|x| *x == 0u8));
    assert_eq!(buf[28], STRAT_REGION_HDR_VERSION);
    assert_eq!(buf[29], STRAT_METADATA_VERSION);
    assert!(buf[30..].iter().all(|x| *x == 0u8));
}

#[test]
/// Verify that loading the MDARegions fails if the regions are all 0s.
/// Verify that loading MDARegions succeeds if the regions are properly
/// initialized.
fn test_reading_mda_regions() {
    let buf_length = (BDA_STATIC_HDR_SIZE + 4 * (MIN_MDA_SECTORS * 512)) as usize;
    let mut buf = MemStream::new(vec![0; buf_length]);
    assert!(MDARegions::load(BDA_STATIC_HDR_SIZE, MIN_MDA_SECTORS, &mut buf).is_err());

    MDARegions::initialize(BDA_STATIC_HDR_SIZE, MIN_MDA_SECTORS, &mut buf).unwrap();
    let regions = MDARegions::load(BDA_STATIC_HDR_SIZE, MIN_MDA_SECTORS, &mut buf).unwrap();
    assert!(regions.last_update_time().is_none());
}

/// Verify that bad crc causes an error.
#[test]
fn test_from_buf_crc_error() {
    let data = [0u8; 3];
    let header = MDAHeader {
        last_updated: now(),
        used: data.len() as u64,
        data_crc: crc32c(&data),
    };
    let mut buf = header.to_buf();
    LittleEndian::write_u32(&mut buf[..4], 0u32);
    assert!(MDAHeader::from_buf(&buf, data.len() as u64 + MDA_REGION_HDR_SIZE).is_err());
}

/// Verify that too small region_size causes an error.
#[test]
fn test_from_buf_size_error() {
    let data = [0u8; 3];
    let header = MDAHeader {
        last_updated: now(),
        used: data.len() as u64,
        data_crc: crc32c(&data),
    };
    let buf = header.to_buf();
    assert!(MDAHeader::from_buf(&buf, MDA_REGION_HDR_SIZE).is_err());
}

#[test]
fn mda_header() {
    // 82102984128000 in decimal, approx 17 million years
    let secs_bound: i64 = 0x7779beb9f00;
    let cases: [(&[u8], i64, u32, u32); 5] = [
        (&[], 1, 0, 0),
        (&[1, 2, 3], 1_600_000_000, 999_999_999, 17),
        (&[0xff; 100], secs_bound - 1, 1_999_999_999, u32::MAX),
        (&[0; 1], i64::MAX, u32::MAX, 0),
        (b"metadata", 2, 1, 1),
    ];
    for (data, sec, nsec, region_size_ext) in cases {
        let region_size = (MIN_MDA_SECTORS / 4) * 512 + region_size_ext as u64;
        let header = MDAHeader {
            last_updated: at(sec, nsec),
            used: data.len() as u64,
            data_crc: crc32c(data),
        };
        let buf = header.to_buf();
        let mda1 = MDAHeader::from_buf(&buf, region_size).unwrap().unwrap();
        let mda2 = MDAHeader::from_buf(&buf, region_size).unwrap().unwrap();

        assert_eq!(mda1.last_updated, mda2.last_updated);
        assert_eq!(mda1.used, mda2.used);
        assert_eq!(mda1.data_crc, mda2.data_crc);
        assert_eq!(header.last_updated, mda1.last_updated);
        assert_eq!(header.data_crc, mda1.data_crc);
        assert_eq!(header, mda1);
    }
}

#[test]
fn region_header_layout_is_byte_exact() {
    let header = MDAHeader {
        last_updated: at(0x0102_0304_0506_0708, 0x0a0b_0c0d),
        used: 0x1112_1314_1516_1718,
        data_crc: 0x2122_2324,
    };
    let buf = header.to_buf();
    assert_eq!(buf.len(), 32);
    assert_eq!(&buf[4..8], &[0x24, 0x23, 0x22, 0x21]);
    assert_eq!(&buf[8..16], &[0x18, 0x17, 0x16, 0x15, 0x14, 0x13, 0x12, 0x11]);
    assert_eq!(&buf[16..24], &[0x08, 0x07, 0x06, 0x05, 0x04, 0x03, 0x02, 0x01]);
    assert_eq!(&buf[24..28], &[0x0d, 0x0c, 0x0b, 0x0a]);
    assert_eq!(&buf[28..32], &[1, 1, 0, 0]);
    assert_eq!(LittleEndian::read_u32(&buf[..4]), crc32c(&buf[4..]));
    assert_eq!(&buf[..4], &crc32c(&buf[4..]).to_le_bytes());
}

#[test]
fn default_header_checksum_covers_the_versions() {
    let buf = MDAHeader::default().to_buf();
    let mut covered = [0u8; 28];
    covered[24] = 1;
    covered[25] = 1;
    assert_eq!(LittleEndian::read_u32(&buf[..4]), crc32c(&covered));
    assert_eq!(MDAHeader::default(), MDAHeader { last_updated: at(0, 0), used: 0, data_crc: 0 });
}

#[test]
fn empty_timestamp_reads_as_no_header() {
    let buf = MDAHeader::default().to_buf();
    assert_eq!(MDAHeader::from_buf(&buf, 0), Ok(None));
    // Whatever the other fields hold.
    let header = MDAHeader { last_updated: at(0, 5), used: u64::MAX, data_crc: 9 };
    assert_eq!(MDAHeader::from_buf(&header.to_buf(), 32), Ok(None));
}

#[test]
fn all_zero_region_header_is_damaged() {
    assert_eq!(
        MDAHeader::from_buf(&[0u8; 32], 4096),
        Err(MetadataError::Invalid(Invalid::RegionHeaderCrc))
    );
}

/// The region header of `header` with `change` applied and the checksum set
/// anew.
fn resealed(header: &MDAHeader, change: impl Fn(&mut [u8; 32])) -> [u8; 32] {
    let mut buf = header.to_buf();
    change(&mut buf);
    let crc = crc32c(&buf[4..]);
    LittleEndian::write_u32(&mut buf[..4], crc);
    buf
}

#[test]
fn region_header_errors() {
    let header = MDAHeader { last_updated: at(5, 6), used: 3, data_crc: 7 };
    assert_eq!(MDAHeader::from_buf(&header.to_buf(), 35), Ok(Some(header)));
    assert_eq!(
        MDAHeader::from_buf(&header.to_buf(), 34),
        Err(MetadataError::Invalid(Invalid::MetadataTooLong { used: 3, available: 34 }))
    );

    let mut buf = header.to_buf();
    buf[10] ^= 1;
    assert_eq!(
        MDAHeader::from_buf(&buf, 35),
        Err(MetadataError::Invalid(Invalid::RegionHeaderCrc))
    );

    let buf = resealed(&header, |buf| buf[28] = 0);
    assert_eq!(
        MDAHeader::from_buf(&buf, 35),
        Err(MetadataError::Invalid(Invalid::RegionHeaderVersion(0)))
    );
    let buf = resealed(&header, |buf| buf[29] = 3);
    assert_eq!(
        MDAHeader::from_buf(&buf, 35),
        Err(MetadataError::Invalid(Invalid::MetadataVersion(3)))
    );
    // The version of the region header is checked first.
    let buf = resealed(&header, |buf| {
        buf[28] = 4;
        buf[29] = 3;
    });
    assert_eq!(
        MDAHeader::from_buf(&buf, 35),
        Err(MetadataError::Invalid(Invalid::RegionHeaderVersion(4)))
    );
}

#[test]
fn negative_seconds_are_rejected() {
    let header = MDAHeader { last_updated: at(5, 6), used: 3, data_crc: 7 };
    let buf = resealed(&header, |buf| LittleEndian::write_u64(&mut buf[16..24], 1 << 63));
    assert_eq!(
        MDAHeader::from_buf(&buf, 35),
        Err(MetadataError::Invalid(Invalid::TimestampOutOfRange(1 << 63)))
    );
    let buf = resealed(&header, |buf| LittleEndian::write_u64(&mut buf[16..24], u64::MAX));
    assert_eq!(
        MDAHeader::from_buf(&buf, 35),
        Err(MetadataError::Invalid(Invalid::TimestampOutOfRange(u64::MAX)))
    );
    // The size is checked first.
    assert_eq!(
        MDAHeader::from_buf(&buf, 34),
        Err(MetadataError::Invalid(Invalid::MetadataTooLong { used: 3, available: 34 }))
    );
}

#[test]
fn used_near_the_limit_does_not_overflow() {
    // 32 bytes of header and the metadata fill the region to its last byte.
    let header = MDAHeader { last_updated: at(5, 6), used: u64::MAX - 32, data_crc: 7 };
    assert_eq!(
        MDAHeader::from_buf(&header.to_buf(), u64::MAX),
        Ok(Some(header))
    );
    let header = MDAHeader { last_updated: at(5, 6), used: u64::MAX - 31, data_crc: 7 };
    assert_eq!(
        MDAHeader::from_buf(&header.to_buf(), u64::MAX),
        Err(MetadataError::Invalid(Invalid::MetadataTooLong {
            used: u64::MAX - 31,
            available: u64::MAX
        }))
    );
}

#[test]
fn mda_size_must_be_aligned_and_large_enough() {
    assert_eq!(validate_mda_size(2032), Ok(()));
    assert_eq!(validate_mda_size(2036), Ok(()));
    assert_eq!(validate_mda_size(u64::MAX - 3), Ok(()));
    assert_eq!(
        validate_mda_size(2028),
        Err(MetadataError::Invalid(Invalid::MdaSizeTooSmall(2028)))
    );
    assert_eq!(
        validate_mda_size(0),
        Err(MetadataError::Invalid(Invalid::MdaSizeTooSmall(0)))
    );
    assert_eq!(
        validate_mda_size(2033),
        Err(MetadataError::Invalid(Invalid::MdaSizeNotDivisible(2033)))
    );
    // Alignment is checked first.
    assert_eq!(
        validate_mda_size(3),
        Err(MetadataError::Invalid(Invalid::MdaSizeNotDivisible(3)))
    );
    assert_eq!(MIN_MDA_SECTORS, 2032);
}

#[test]
fn region_must_hold_header_and_metadata() {
    assert_eq!(check_mda_region_size(0, 32), Ok(()));
    assert_eq!(check_mda_region_size(10, 42), Ok(()));
    assert_eq!(
        check_mda_region_size(10, 41),
        Err(MetadataError::Invalid(Invalid::MetadataTooLong { used: 10, available: 41 }))
    );
    assert_eq!(
        check_mda_region_size(0, 31),
        Err(MetadataError::Invalid(Invalid::MetadataTooLong { used: 0, available: 31 }))
    );
    assert_eq!(
        check_mda_region_size(u64::MAX, u64::MAX),
        Err(MetadataError::Invalid(Invalid::MetadataTooLong {
            used: u64::MAX,
            available: u64::MAX
        }))
    );
}

#[test]
fn timestamps_are_ordered_by_seconds_then_nanoseconds() {
    assert!(at(1, 5).before(&at(2, 0)));
    assert!(at(1, 5).before(&at(1, 6)));
    assert!(!at(1, 5).before(&at(1, 5)));
    assert!(!at(2, 0).before(&at(1, 5)));
    assert!(at(1, 5) < at(1, 6));
    assert!(at(1, 5) < at(2, 0));
}

#[test]
fn offsets_of_the_regions() {
    assert_eq!(MDARegions::mda_offset(8192, 0, 260096), 8192);
    assert_eq!(MDARegions::mda_offset(8192, 1, 260096), 8192 + 260096);
    assert_eq!(MDARegions::mda_offset(8192, 3, 260096), 8192 + 3 * 260096);
    assert_eq!(MDARegions::mda_offset(0, 2, 0), 0);
}

#[test]
fn initialize_writes_four_empty_headers() {
    let mut buf = MemStream::new(vec![0x55; BDA_STATIC_HDR_SIZE as usize + 4 * REGION_BYTES]);
    let regions = MDARegions::initialize(BDA_STATIC_HDR_SIZE, MIN_MDA_SECTORS, &mut buf).unwrap();
    assert_eq!(regions.region_size, 508);
    assert_eq!(regions.max_data_size(), 508);
    assert_eq!(regions.mdas, [None, None]);
    assert_eq!(regions.last_update_time(), None);
    assert_eq!((regions.older(), regions.newer()), (0, 1));

    let empty = MDAHeader::default().to_buf();
    let bytes = buf.get_ref();
    for region in 0..4 {
        let start = 8192 + region * REGION_BYTES;
        assert_eq!(&bytes[start..start + 32], &empty);
        assert!(bytes[start + 32..start + REGION_BYTES].iter().all(|x| *x == 0x55));
    }
    assert!(bytes[..8192].iter().all(|x| *x == 0x55));
}

#[test]
fn initialize_needs_room_for_the_last_header() {
    let enough = BDA_STATIC_HDR_SIZE as usize + 3 * REGION_BYTES + 32;
    let mut buf = MemStream::new(vec![0; enough]);
    assert!(MDARegions::initialize(BDA_STATIC_HDR_SIZE, MIN_MDA_SECTORS, &mut buf).is_ok());
    let mut buf = MemStream::new(vec![0; enough - 1]);
    assert_eq!(
        MDARegions::initialize(BDA_STATIC_HDR_SIZE, MIN_MDA_SECTORS, &mut buf),
        Err(MetadataError::Io(IoError::WriteZero))
    );
    assert_eq!(buf.get_ref().len(), enough - 1);
}

#[test]
fn save_alternates_between_the_slots() {
    let mut buf = min_stream();
    let mut regions =
        MDARegions::initialize(BDA_STATIC_HDR_SIZE, MIN_MDA_SECTORS, &mut buf).unwrap();

    regions
        .save_state(BDA_STATIC_HDR_SIZE, &at(10, 0), &[0xde, 0xad, 0xbe, 0xef], &mut buf)
        .unwrap();
    let first = MDAHeader {
        last_updated: at(10, 0),
        used: 4,
        data_crc: crc32c(&[0xde, 0xad, 0xbe, 0xef]),
    };
    assert_eq!(regions.mdas, [Some(first), None]);
    assert_eq!((regions.older(), regions.newer()), (1, 0));
    assert_eq!(regions.last_update_time(), Some(&at(10, 0)));
    assert_eq!(
        regions.load_state(BDA_STATIC_HDR_SIZE, &mut buf),
        Ok(Some(vec![0xde, 0xad, 0xbe, 0xef]))
    );

    regions.save_state(BDA_STATIC_HDR_SIZE, &at(10, 1), &[0x01], &mut buf).unwrap();
    let second = MDAHeader { last_updated: at(10, 1), used: 1, data_crc: crc32c(&[0x01]) };
    assert_eq!(regions.mdas, [Some(first), Some(second)]);
    assert_eq!((regions.older(), regions.newer()), (0, 1));
    assert_eq!(regions.load_state(BDA_STATIC_HDR_SIZE, &mut buf), Ok(Some(vec![0x01])));

    regions.save_state(BDA_STATIC_HDR_SIZE, &at(11, 0), &[0x02], &mut buf).unwrap();
    let third = MDAHeader { last_updated: at(11, 0), used: 1, data_crc: crc32c(&[0x02]) };
    assert_eq!(regions.mdas, [Some(third), Some(second)]);
    assert_eq!((regions.older(), regions.newer()), (1, 0));
    assert_eq!(regions.load_state(BDA_STATIC_HDR_SIZE, &mut buf), Ok(Some(vec![0x02])));

    // Monotonicity violation
    let before = buf.clone();
    assert_eq!(
        regions.save_state(BDA_STATIC_HDR_SIZE, &at(10, 0), &[0xff], &mut buf),
        Err(MetadataError::Invalid(Invalid::OverwritingNewer))
    );
    assert_eq!(
        regions.save_state(BDA_STATIC_HDR_SIZE, &at(11, 0), &[0xff], &mut buf),
        Err(MetadataError::Invalid(Invalid::OverwritingNewer))
    );
    assert_eq!(regions.mdas, [Some(third), Some(second)]);
    assert_eq!(before.get_ref(), buf.get_ref());
    assert_eq!(regions.load_state(BDA_STATIC_HDR_SIZE, &mut buf), Ok(Some(vec![0x02])));
}

#[test]
fn save_writes_both_copies_and_nothing_else() {
    let mut buf = min_stream();
    let mut regions =
        MDARegions::initialize(BDA_STATIC_HDR_SIZE, MIN_MDA_SECTORS, &mut buf).unwrap();
    let before = buf.clone();
    let data = [7u8, 8, 9];
    regions.save_state(BDA_STATIC_HDR_SIZE, &at(3, 4), &data, &mut buf).unwrap();

    let header = MDAHeader { last_updated: at(3, 4), used: 3, data_crc: crc32c(&data) };
    let mut record = header.to_buf().to_vec();
    record.extend_from_slice(&data);

    let mut expected = before.get_ref().clone();
    expected[8192..8192 + 35].copy_from_slice(&record);
    let sibling = 8192 + 2 * REGION_BYTES;
    expected[sibling..sibling + 35].copy_from_slice(&record);
    assert_eq!(buf.get_ref(), &expected);

    // The next save goes to the other slot and leaves this one alone.
    regions.save_state(BDA_STATIC_HDR_SIZE, &at(3, 5), &[1], &mut buf).unwrap();
    assert_eq!(&buf.get_ref()[8192..8192 + 35], &record[..]);
    assert_eq!(&buf.get_ref()[sibling..sibling + 35], &record[..]);
    let header = MDAHeader { last_updated: at(3, 5), used: 1, data_crc: crc32c(&[1]) };
    let other = 8192 + REGION_BYTES;
    assert_eq!(&buf.get_ref()[other..other + 32], &header.to_buf());
    assert_eq!(buf.get_ref()[other + 32], 1);
    let other = 8192 + 3 * REGION_BYTES;
    assert_eq!(&buf.get_ref()[other..other + 32], &header.to_buf());
    assert_eq!(buf.get_ref()[other + 32], 1);
}

#[test]
fn save_rejects_metadata_that_does_not_fit() {
    let mut buf = min_stream();
    let mut regions =
        MDARegions::initialize(BDA_STATIC_HDR_SIZE, MIN_MDA_SECTORS, &mut buf).unwrap();
    let before = buf.clone();

    let too_long = vec![0u8; REGION_BYTES - 31];
    assert_eq!(
        regions.save_state(BDA_STATIC_HDR_SIZE, &at(1, 0), &too_long, &mut buf),
        Err(MetadataError::Invalid(Invalid::MetadataTooLong {
            used: (REGION_BYTES - 31) as u64,
            available: REGION_BYTES as u64
        }))
    );
    assert_eq!(regions.mdas, [None, None]);
    assert_eq!(before.get_ref(), buf.get_ref());

    let fits = vec![3u8; REGION_BYTES - 32];
    assert_eq!(regions.save_state(BDA_STATIC_HDR_SIZE, &at(1, 0), &fits, &mut buf), Ok(()));
    assert_eq!(regions.load_state(BDA_STATIC_HDR_SIZE, &mut buf), Ok(Some(fits)));
}

#[test]
fn newer_data_is_checked_before_the_size() {
    let mut buf = min_stream();
    let mut regions =
        MDARegions::initialize(BDA_STATIC_HDR_SIZE, MIN_MDA_SECTORS, &mut buf).unwrap();
    regions.save_state(BDA_STATIC_HDR_SIZE, &at(5, 0), &[1], &mut buf).unwrap();
    let too_long = vec![0u8; REGION_BYTES];
    assert_eq!(
        regions.save_state(BDA_STATIC_HDR_SIZE, &at(5, 0), &too_long, &mut buf),
        Err(MetadataError::Invalid(Invalid::OverwritingNewer))
    );
}

#[test]
fn save_of_empty_metadata() {
    let mut buf = min_stream();
    let mut regions =
        MDARegions::initialize(BDA_STATIC_HDR_SIZE, MIN_MDA_SECTORS, &mut buf).unwrap();
    regions.save_state(BDA_STATIC_HDR_SIZE, &at(5, 0), &[], &mut buf).unwrap();
    assert_eq!(regions.load_state(BDA_STATIC_HDR_SIZE, &mut buf), Ok(Some(vec![])));
    assert_eq!(regions.mdas[0].unwrap().data_crc, crc32c(&[]));
    assert_eq!(regions.mdas[0].unwrap().data_crc, 0);
}

#[test]
fn save_stops_at_the_first_write_that_does_not_fit() {
    // The stream ends behind the header of the second copy of slot 0.
    let sibling = BDA_STATIC_HDR_SIZE as usize + 2 * REGION_BYTES;
    let mut buf = MemStream::new(vec![0x55; sibling + 32 + 3]);
    let mut regions = MDARegions { region_size: 508, mdas: [None, None] };
    let data = [1u8, 2, 3, 4];
    assert_eq!(
        regions.save_state(BDA_STATIC_HDR_SIZE, &at(5, 0), &data, &mut buf),
        Err(MetadataError::Io(IoError::WriteZero))
    );
    let header = MDAHeader { last_updated: at(5, 0), used: 4, data_crc: crc32c(&data) };
    let bytes = buf.get_ref();
    assert_eq!(&bytes[8192..8192 + 32], &header.to_buf());
    assert_eq!(&bytes[8192 + 32..8192 + 36], &data);
    assert_eq!(&bytes[sibling..sibling + 32], &header.to_buf());
    assert_eq!(&bytes[sibling + 32..], &[0x55; 3]);
    assert!(bytes[8192 + 36..sibling].iter().all(|x| *x == 0x55));
}

#[test]
fn initialize_stops_at_the_first_header_that_does_not_fit() {
    let len = BDA_STATIC_HDR_SIZE as usize + 2 * REGION_BYTES + 31;
    let mut buf = MemStream::new(vec![0x55; len]);
    assert_eq!(
        MDARegions::initialize(BDA_STATIC_HDR_SIZE, MIN_MDA_SECTORS, &mut buf),
        Err(MetadataError::Io(IoError::WriteZero))
    );
    let empty = MDAHeader::default().to_buf();
    let bytes = buf.get_ref();
    assert_eq!(&bytes[8192..8192 + 32], &empty);
    assert_eq!(&bytes[8192 + REGION_BYTES..8192 + REGION_BYTES + 32], &empty);
    assert!(bytes[8192 + 2 * REGION_BYTES..].iter().all(|x| *x == 0x55));
}

#[test]
fn failed_save_leaves_the_regions_as_they_were() {
    // The stream ends within the second copy of slot 0.
    let len = BDA_STATIC_HDR_SIZE as usize + 2 * REGION_BYTES + 32 + 3;
    let mut buf = MemStream::new(vec![0; len]);
    let mut regions = MDARegions { region_size: 508, mdas: [None, None] };
    assert_eq!(
        regions.save_state(BDA_STATIC_HDR_SIZE, &at(5, 0), &[1, 2, 3, 4], &mut buf),
        Err(MetadataError::Io(IoError::WriteZero))
    );
    assert_eq!(regions.mdas, [None, None]);
    assert_eq!(buf.get_ref().len(), len);
    assert_eq!(
        regions.save_state(BDA_STATIC_HDR_SIZE, &at(5, 0), &[1, 2, 3], &mut buf),
        Ok(())
    );
    assert_eq!(regions.last_update_time(), Some(&at(5, 0)));
}

#[test]
fn load_reads_both_slots() {
    let mut buf = min_stream();
    let mut regions =
        MDARegions::initialize(BDA_STATIC_HDR_SIZE, MIN_MDA_SECTORS, &mut buf).unwrap();
    assert_eq!(MDARegions::load(BDA_STATIC_HDR_SIZE, MIN_MDA_SECTORS, &mut buf), Ok(regions));
    regions.save_state(BDA_STATIC_HDR_SIZE, &at(5, 0), &[1, 2, 3], &mut buf).unwrap();
    assert_eq!(MDARegions::load(BDA_STATIC_HDR_SIZE, MIN_MDA_SECTORS, &mut buf), Ok(regions));
    regions.save_state(BDA_STATIC_HDR_SIZE, &at(6, 0), &[4, 5], &mut buf).unwrap();
    let loaded = MDARegions::load(BDA_STATIC_HDR_SIZE, MIN_MDA_SECTORS, &mut buf).unwrap();
    assert_eq!(loaded, regions);
    assert_eq!(loaded.last_update_time(), Some(&at(6, 0)));
    assert_eq!(loaded.load_state(BDA_STATIC_HDR_SIZE, &mut buf), Ok(Some(vec![4, 5])));
}

#[test]
fn load_falls_back_on_the_second_copy_of_a_header() {
    let mut buf = min_stream();
    let mut regions =
        MDARegions::initialize(BDA_STATIC_HDR_SIZE, MIN_MDA_SECTORS, &mut buf).unwrap();
    regions.save_state(BDA_STATIC_HDR_SIZE, &at(5, 0), &[1, 2, 3], &mut buf).unwrap();

    // Damage the header of region 0: region 2 still says the same.
    buf.seek(8192 + 9).unwrap();
    buf.write_all(&[0xff]).unwrap();
    assert_eq!(MDARegions::load(BDA_STATIC_HDR_SIZE, MIN_MDA_SECTORS, &mut buf), Ok(regions));

    // Damage the header of region 2 as well.
    buf.seek(8192 + 2 * REGION_BYTES as u64 + 9).unwrap();
    buf.write_all(&[0xff]).unwrap();
    assert_eq!(
        MDARegions::load(BDA_STATIC_HDR_SIZE, MIN_MDA_SECTORS, &mut buf),
        Err(MetadataError::Invalid(Invalid::RegionHeaderCrc))
    );
}

#[test]
fn load_falls_back_on_the_second_copy_of_a_header_that_cannot_be_read() {
    let mut buf = min_stream();
    let mut regions =
        MDARegions::initialize(BDA_STATIC_HDR_SIZE, MIN_MDA_SECTORS, &mut buf).unwrap();
    regions.save_state(BDA_STATIC_HDR_SIZE, &at(5, 0), &[1, 2, 3], &mut buf).unwrap();
    regions.save_state(BDA_STATIC_HDR_SIZE, &at(6, 0), &[4], &mut buf).unwrap();

    let bytes = buf.into_inner();
    // The header of region 0, then that of region 1.
    for from in [8192, 8192 + REGION_BYTES as u64] {
        let mut buf = MemStream::with_unreadable(bytes.clone(), from + 31, from + 32);
        assert_eq!(MDARegions::load(BDA_STATIC_HDR_SIZE, MIN_MDA_SECTORS, &mut buf), Ok(regions));
    }
    // Both copies of the header of slot 0.
    let mut buf =
        MemStream::with_unreadable(bytes.clone(), 8192, 8192 + 2 * REGION_BYTES as u64 + 1);
    assert_eq!(
        MDARegions::load(BDA_STATIC_HDR_SIZE, MIN_MDA_SECTORS, &mut buf),
        Err(MetadataError::Io(IoError::Other))
    );
}

#[test]
fn load_state_falls_back_on_the_second_copy_of_data_that_cannot_be_read() {
    let mut buf = min_stream();
    let mut regions =
        MDARegions::initialize(BDA_STATIC_HDR_SIZE, MIN_MDA_SECTORS, &mut buf).unwrap();
    regions.save_state(BDA_STATIC_HDR_SIZE, &at(5, 0), &[1, 2, 3], &mut buf).unwrap();

    let bytes = buf.into_inner();
    let mut buf = MemStream::with_unreadable(bytes.clone(), 8192 + 32, 8192 + 33);
    assert_eq!(regions.load_state(BDA_STATIC_HDR_SIZE, &mut buf), Ok(Some(vec![1, 2, 3])));
    let sibling = 8192 + 2 * REGION_BYTES as u64;
    let mut buf = MemStream::with_unreadable(bytes.clone(), sibling, sibling + 64);
    assert_eq!(regions.load_state(BDA_STATIC_HDR_SIZE, &mut buf), Ok(Some(vec![1, 2, 3])));
    let mut buf = MemStream::with_unreadable(bytes, 8192 + 34, sibling + 33);
    assert_eq!(
        regions.load_state(BDA_STATIC_HDR_SIZE, &mut buf),
        Err(MetadataError::Io(IoError::Other))
    );
}

#[test]
fn load_on_a_stream_that_is_too_short() {
    let mut buf = MemStream::new(vec![0; 8192 + 31]);
    assert_eq!(
        MDARegions::load(BDA_STATIC_HDR_SIZE, MIN_MDA_SECTORS, &mut buf),
        Err(MetadataError::Io(IoError::UnexpectedEof))
    );
}

#[test]
fn load_state_falls_back_on_the_second_copy() {
    let mut buf = min_stream();
    let mut regions =
        MDARegions::initialize(BDA_STATIC_HDR_SIZE, MIN_MDA_SECTORS, &mut buf).unwrap();
    regions.save_state(BDA_STATIC_HDR_SIZE, &at(5, 0), &[1, 2, 3], &mut buf).unwrap();

    buf.seek(8192 + 33).unwrap();
    buf.write_all(&[0xff]).unwrap();
    assert_eq!(regions.load_state(BDA_STATIC_HDR_SIZE, &mut buf), Ok(Some(vec![1, 2, 3])));

    buf.seek(8192 + 2 * REGION_BYTES as u64 + 34).unwrap();
    buf.write_all(&[0xff]).unwrap();
    assert_eq!(
        regions.load_state(BDA_STATIC_HDR_SIZE, &mut buf),
        Err(MetadataError::Invalid(Invalid::RegionDataCrc))
    );
}

#[test]
fn load_state_without_metadata() {
    let mut buf = min_stream();
    let regions = MDARegions::initialize(BDA_STATIC_HDR_SIZE, MIN_MDA_SECTORS, &mut buf).unwrap();
    assert_eq!(regions.load_state(BDA_STATIC_HDR_SIZE, &mut buf), Ok(None));
    // Nothing is read then.
    let mut short = MemStream::new(vec![]);
    assert_eq!(regions.load_state(BDA_STATIC_HDR_SIZE, &mut short), Ok(None));
}

#[test]
fn load_region_reads_at_the_position() {
    let data = [9u8, 8, 7, 6];
    let header = MDAHeader { last_updated: at(5, 0), used: 4, data_crc: crc32c(&data) };
    let mut buf = MemStream::new(vec![0, 0, 9, 8, 7, 6, 0]);
    buf.seek(2).unwrap();
    assert_eq!(header.load_region(&mut buf), Ok(vec![9, 8, 7, 6]));
    buf.seek(3).unwrap();
    assert_eq!(
        header.load_region(&mut buf),
        Err(MetadataError::Invalid(Invalid::RegionDataCrc))
    );
    buf.seek(4).unwrap();
    assert_eq!(header.load_region(&mut buf), Err(MetadataError::Io(IoError::UnexpectedEof)));
}

#[test]
fn older_and_newer_slots() {
    let header =
        |secs, nsecs| Some(MDAHeader { last_updated: at(secs, nsecs), used: 0, data_crc: 0 });
    let regions = |mdas| MDARegions { region_size: 508, mdas };
    assert_eq!(regions([None, None]).older(), 0);
    assert_eq!(regions([None, header(1, 0)]).older(), 0);
    assert_eq!(regions([header(1, 0), None]).older(), 1);
    assert_eq!(regions([header(1, 0), header(2, 0)]).older(), 0);
    assert_eq!(regions([header(2, 0), header(1, 0)]).older(), 1);
    assert_eq!(regions([header(1, 1), header(1, 2)]).older(), 0);
    // Ties resolve in favor of slot 1 being older.
    assert_eq!(regions([header(1, 1), header(1, 1)]).older(), 1);
    assert_eq!(regions([header(1, 1), header(1, 1)]).newer(), 0);
    assert_eq!(regions([None, header(1, 0)]).newer(), 1);
    assert_eq!(regions([None, header(1, 0)]).last_update_time(), Some(&at(1, 0)));
    assert_eq!(regions([header(3, 0), None]).last_update_time(), Some(&at(3, 0)));
    assert_eq!(regions([header(3, 0), header(3, 1)]).last_update_time(), Some(&at(3, 1)));
}
