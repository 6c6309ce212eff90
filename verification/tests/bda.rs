use blockdev_metadata::bda::BDA;
use blockdev_metadata::error::{Invalid, MetadataError};
use blockdev_metadata::mda::{MDAHeader, Timestamp, MIN_MDA_SECTORS};
use blockdev_metadata::static_header::{StaticHeader, SECTOR_SIZE};
use blockdev_metadata::stream::{ByteStream, IoError, MemStream};
use byteorder::{ByteOrder, LittleEndian};
use chrono::Utc;
use crc::{Crc, CRC_32_ISCSI};
use uuid::Uuid;

const BDA_STATIC_HDR_BYTES: usize = 16 * SECTOR_SIZE;

fn crc32c(data: &[u8]) -> u32 {
    Crc::<u32>::new(&CRC_32_ISCSI).checksum(data)
}

fn now() -> Timestamp {
    let now = Utc::now();
    Timestamp { secs: now.timestamp(), nsecs: now.timestamp_subsec_nanos() }
}

fn at(secs: i64, nsecs: u32) -> Timestamp {
    Timestamp { secs, nsecs }
}

/// A static header with random UUIDs. The block device is smaller than a
/// real one would be, so that tests stay fast.
fn random_static_header(blkdev_size: u64, mda_size_factor: u32) -> StaticHeader {
    let pool_uuid = Uuid::new_v4();
    let dev_uuid = Uuid::new_v4();
    let mda_size = MIN_MDA_SECTORS + (mda_size_factor * 4) as u64;
    let blkdev_size = (1024 * 1024 + blkdev_size * 512) / 512;
    StaticHeader::new(
        pool_uuid.as_u128(),
        dev_uuid.as_u128(),
        mda_size,
        blkdev_size,
        Utc::now().timestamp() as u64,
    )
}

fn zeroed_stream(sh: &StaticHeader) -> MemStream {
    MemStream::new(vec![0; sh.mda_size as usize * SECTOR_SIZE + BDA_STATIC_HDR_BYTES])
}

fn initialize(buf: &mut MemStream, sh: &StaticHeader) -> BDA {
    BDA::initialize(
        buf,
        sh.pool_uuid,
        sh.dev_uuid,
        sh.mda_size,
        sh.blkdev_size,
        Utc::now().timestamp() as u64,
    )
    .unwrap()
}

/// A device of 16 MiB of zeros, initialized.
fn sample_device() -> (MemStream, BDA) {
    let pool = Uuid::parse_str("00000000000000000000000000000001").unwrap().as_u128();
    let dev = Uuid::parse_str("00000000000000000000000000000002").unwrap().as_u128();
    let mut buf = MemStream::new(vec![0u8; 16 * 1024 * 1024]);
    let bda = BDA::initialize(&mut buf, pool, dev, 2032, 32768, 1_600_000_000).unwrap();
    (buf, bda)
}

#[test]
/// Construct a BDA and verify that an error is returned if timestamp
/// of saved data is older than timestamp of most recently written data.
fn test_early_times_err() {
    let data = [0u8; 3];

    // Construct a BDA.
    let sh = random_static_header(0, 0);
    let mut buf = MemStream::new(vec![0; sh.blkdev_size as usize * 512]);
    let mut bda = BDA::initialize(
        &mut buf,
        sh.pool_uuid,
        sh.dev_uuid,
        sh.mda_size,
        sh.blkdev_size,
        Utc::now().timestamp() as u64,
    )
    .unwrap();

    let timestamp0 = now();
    let timestamp1 = now();
    assert_ne!(timestamp0, timestamp1);

    let mut buf = MemStream::new(vec![0; sh.blkdev_size as usize * 512]);
    bda.save_state(&timestamp1, &data, &mut buf).unwrap();

    // Error, because current timestamp is older than written to newer.
    assert!(bda.save_state(&timestamp0, &data, &mut buf).is_err());

    let timestamp2 = now();
    let timestamp3 = now();
    assert_ne!(timestamp2, timestamp3);

    bda.save_state(&timestamp3, &data, &mut buf).unwrap();

    // Error, because current timestamp is older than written to newer.
    assert!(bda.save_state(&timestamp2, &data, &mut buf).is_err());
}

#[test]
fn empty_bda() {
    for (b, m) in [(0, 0), (5, 2), (63, 63)] {
        let sh = random_static_header(b, m);
        let mut buf = zeroed_stream(&sh);
        let bda = initialize(&mut buf, &sh);
        assert!(bda.last_update_time().is_none());
        assert_eq!(bda.load_state(&mut buf), Ok(None));
    }
}

#[test]
fn check_state() {
    let states: [(&[u8], &[u8]); 3] =
        [(&[], &[1]), (&[1, 2, 3], &[]), (&[0xff; 64], b"next state")];
    for (index, (state, next_state)) in states.into_iter().enumerate() {
        let sh = random_static_header(index as u64, 3 * index as u32);
        let mut buf = zeroed_stream(&sh);
        let mut bda = initialize(&mut buf, &sh);
        let current_time = now();
        bda.save_state(&current_time, state, &mut buf).unwrap();
        let loaded_state = bda.load_state(&mut buf).unwrap();
        assert_eq!(bda.last_update_time(), Some(&current_time));
        assert_eq!(loaded_state.as_deref(), Some(state));

        let mut bda = BDA::load(&mut buf).unwrap().unwrap();
        let loaded_state = bda.load_state(&mut buf).unwrap();
        assert_eq!(loaded_state.as_deref(), Some(state));
        assert_eq!(bda.last_update_time(), Some(&current_time));

        let current_time = Timestamp { secs: current_time.secs + 1, nsecs: 0 };
        bda.save_state(&current_time, next_state, &mut buf).unwrap();
        let loaded_state = bda.load_state(&mut buf).unwrap();
        assert_eq!(loaded_state.as_deref(), Some(next_state));
        assert_eq!(bda.last_update_time(), Some(&current_time));

        let reloaded = BDA::load(&mut buf).unwrap().unwrap();
        assert_eq!(reloaded, bda);
    }
}

#[test]
fn fresh_initialize() {
    let (buf, bda) = sample_device();
    let bytes = buf.get_ref();
    let magic = [
        0x21, 0x53, 0x74, 0x72, 0x61, 0x30, 0x74, 0x69, 0x73, 0x86, 0xff, 0x02, 0x5e, 0x41, 0x72,
        0x68,
    ];
    for offset in [512, 4608] {
        assert_eq!(&bytes[offset + 4..offset + 20], &magic);
        assert_eq!(
            LittleEndian::read_u32(&bytes[offset..offset + 4]),
            crc32c(&bytes[offset + 4..offset + 512])
        );
        assert_eq!(&bytes[offset..offset + 512], &bda.header.sigblock_to_buf());
    }
    assert!(bytes[..512].iter().all(|x| *x == 0));
    assert!(bytes[1024..4608].iter().all(|x| *x == 0));
    assert!(bytes[5120..8192].iter().all(|x| *x == 0));

    let region_size = (2032 / 4) * 512;
    for region in 0..4 {
        let offset = 8192 + region * region_size;
        let mut header = [0u8; 32];
        header.copy_from_slice(&bytes[offset..offset + 32]);
        assert_eq!(LittleEndian::read_u64(&header[16..24]), 0);
        assert_eq!(MDAHeader::from_buf(&header, region_size as u64), Ok(None));
    }
}

#[test]
fn initialize_returns_what_it_wrote() {
    let (_, bda) = sample_device();
    assert_eq!(bda.pool_uuid(), 1);
    assert_eq!(bda.dev_uuid(), 2);
    assert_eq!(bda.dev_size(), 32768);
    assert_eq!(bda.initialization_time(), 1_600_000_000);
    assert_eq!(bda.max_data_size(), 508);
    assert_eq!(bda.size(), 16 + 2032 + 6144);
    assert_eq!(bda.last_update_time(), None);
    assert_eq!(bda.header, StaticHeader::new(1, 2, 2032, 32768, 1_600_000_000));
    assert_eq!(bda.regions.mdas, [None, None]);
}

#[test]
fn initialize_on_a_device_that_is_too_small() {
    let enough = 8192 + 3 * 508 * 512 + 32;
    let mut buf = MemStream::new(vec![0u8; enough]);
    assert!(BDA::initialize(&mut buf, 1, 2, 2032, 32768, 5).is_ok());
    let mut buf = MemStream::new(vec![0u8; enough - 1]);
    assert_eq!(
        BDA::initialize(&mut buf, 1, 2, 2032, 32768, 5),
        Err(MetadataError::Io(IoError::WriteZero))
    );
    let mut buf = MemStream::new(vec![0u8; 8191]);
    assert_eq!(
        BDA::initialize(&mut buf, 1, 2, 2032, 32768, 5),
        Err(MetadataError::Io(IoError::WriteZero))
    );
}

#[test]
fn save_and_load_one_payload() {
    let (mut buf, mut bda) = sample_device();
    let ts_1 = at(1_600_000_001, 0);
    bda.save_state(&ts_1, &[0xde, 0xad, 0xbe, 0xef], &mut buf).unwrap();
    assert_eq!(bda.load_state(&mut buf), Ok(Some(vec![0xde, 0xad, 0xbe, 0xef])));
    assert_eq!(bda.last_update_time(), Some(&ts_1));
    assert!(bda.regions.mdas[0].is_some());
    assert!(bda.regions.mdas[1].is_none());
}

#[test]
fn two_saves_alternate_slots() {
    let (mut buf, mut bda) = sample_device();
    let ts_1 = at(1_600_000_001, 0);
    let ts_2 = at(1_600_000_001, 1);
    let ts_3 = at(1_600_000_002, 0);
    bda.save_state(&ts_1, &[0xde, 0xad, 0xbe, 0xef], &mut buf).unwrap();

    bda.save_state(&ts_2, &[0x01], &mut buf).unwrap();
    assert_eq!(bda.regions.mdas[1].unwrap().last_updated, ts_2);
    assert_eq!(bda.regions.mdas[0].unwrap().last_updated, ts_1);
    assert_eq!(bda.load_state(&mut buf), Ok(Some(vec![0x01])));

    bda.save_state(&ts_3, &[0x02], &mut buf).unwrap();
    assert_eq!(bda.regions.mdas[0].unwrap().last_updated, ts_3);
    assert_eq!(bda.regions.mdas[1].unwrap().last_updated, ts_2);
    assert_eq!(bda.load_state(&mut buf), Ok(Some(vec![0x02])));

    // Monotonicity violation
    assert_eq!(
        bda.save_state(&ts_1, &[0xff], &mut buf),
        Err(MetadataError::Invalid(Invalid::OverwritingNewer))
    );
    assert_eq!(bda.load_state(&mut buf), Ok(Some(vec![0x02])));
    assert_eq!(bda.last_update_time(), Some(&ts_3));
}

#[test]
fn monotonic_save() {
    let (mut buf, mut bda) = sample_device();
    let t_new = at(100, 5);
    bda.save_state(&t_new, &[1, 2], &mut buf).unwrap();
    for t_old in [at(100, 5), at(100, 4), at(99, 6), at(1, 0)] {
        assert_eq!(
            bda.save_state(&t_old, &[9], &mut buf),
            Err(MetadataError::Invalid(Invalid::OverwritingNewer))
        );
        assert_eq!(bda.load_state(&mut buf), Ok(Some(vec![1, 2])));
    }
}

#[test]
fn reopen() {
    let (mut buf, mut bda) = sample_device();
    let t = at(7, 8);
    bda.save_state(&t, &[4, 5, 6], &mut buf).unwrap();
    drop(bda);
    let bda = BDA::load(&mut buf).unwrap().unwrap();
    assert_eq!(bda.load_state(&mut buf), Ok(Some(vec![4, 5, 6])));
    assert_eq!(bda.last_update_time(), Some(&t));
}

#[test]
fn reopen_loses_a_save_at_the_epoch() {
    // Seconds of zero mark a slot that was never written.
    let (mut buf, mut bda) = sample_device();
    bda.save_state(&at(0, 8), &[4, 5, 6], &mut buf).unwrap();
    assert_eq!(bda.last_update_time(), Some(&at(0, 8)));
    assert_eq!(bda.load_state(&mut buf), Ok(Some(vec![4, 5, 6])));
    let bda = BDA::load(&mut buf).unwrap().unwrap();
    assert_eq!(bda.last_update_time(), None);
    assert_eq!(bda.load_state(&mut buf), Ok(None));
}

#[test]
fn wipe() {
    let (mut buf, mut bda) = sample_device();
    bda.save_state(&at(7, 8), &[0xde, 0xad, 0xbe, 0xef], &mut buf).unwrap();
    assert_eq!(BDA::wipe(&mut buf), Ok(()));
    assert_eq!(StaticHeader::device_identifiers(&mut buf), Ok(None));
    assert!(buf.get_ref()[..8192].iter().all(|x| *x == 0));
    assert_eq!(BDA::load(&mut buf), Ok(None));
    // What lies behind the static header stays.
    assert_eq!(&buf.get_ref()[8192 + 32..8192 + 36], &[0xde, 0xad, 0xbe, 0xef]);
}

#[test]
fn wipe_on_a_device_that_is_too_small() {
    let mut buf = MemStream::new(vec![1u8; 8191]);
    assert_eq!(BDA::wipe(&mut buf), Err(MetadataError::Io(IoError::WriteZero)));
    assert_eq!(buf.get_ref(), &vec![1u8; 8191]);
}

#[test]
fn reopen_a_device_with_bad_sectors() {
    let (mut buf, mut bda) = sample_device();
    bda.save_state(&at(7, 8), &[4, 5, 6], &mut buf).unwrap();
    let bytes = buf.into_inner();
    // The first signature block, the first copy of slot 0, the first copy
    // of slot 1.
    for (from, to) in [(0, 4096), (8192, 8192 + 64), (8192 + 508 * 512, 8192 + 508 * 512 + 1)] {
        let mut buf = MemStream::with_unreadable(bytes.clone(), from, to);
        let reloaded = BDA::load(&mut buf).unwrap().unwrap();
        assert_eq!(reloaded, bda);
        assert_eq!(reloaded.load_state(&mut buf), Ok(Some(vec![4, 5, 6])));
        assert_eq!(reloaded.last_update_time(), Some(&at(7, 8)));
        assert_eq!(buf.get_ref(), &bytes);
    }
}

#[test]
fn load_of_a_device_that_is_not_ours() {
    let mut buf = MemStream::new(vec![0u8; 1024 * 1024]);
    assert_eq!(BDA::load(&mut buf), Ok(None));
}

#[test]
fn load_fails_without_region_headers() {
    let sh = StaticHeader::new(1, 2, 2032, 32768, 3);
    let mut buf = zeroed_stream(&sh);
    let block = sh.sigblock_to_buf();
    buf.seek(512).unwrap();
    buf.write_all(&block).unwrap();
    buf.seek(4608).unwrap();
    buf.write_all(&block).unwrap();
    assert_eq!(
        BDA::load(&mut buf),
        Err(MetadataError::Invalid(Invalid::RegionHeaderCrc))
    );
}

#[test]
fn load_rejects_sizes_that_cannot_be_addressed() {
    // A metadata area that would end behind 2^64 bytes.
    let sh = StaticHeader::new(1, 2, 1 << 55, 32768, 3);
    assert_eq!(
        BDA::check_size(&sh),
        Err(MetadataError::Invalid(Invalid::MdaSizeTooLarge(1 << 55)))
    );
    let mut buf = MemStream::new(vec![0u8; 8192]);
    let block = sh.sigblock_to_buf();
    buf.seek(512).unwrap();
    buf.write_all(&block).unwrap();
    assert_eq!(
        BDA::load(&mut buf),
        Err(MetadataError::Invalid(Invalid::MdaSizeTooLarge(1 << 55)))
    );

    let largest = ((u64::MAX - 8192) / 2048) * 4 + 3;
    let mut sh = StaticHeader::new(1, 2, largest, 32768, 3);
    assert_eq!(BDA::check_size(&sh), Ok(()));
    sh.mda_size += 1;
    assert_eq!(
        BDA::check_size(&sh),
        Err(MetadataError::Invalid(Invalid::MdaSizeTooLarge(largest + 1)))
    );

    // What is kept free behind the metadata area is of no account.
    let mut sh = StaticHeader::new(1, 2, 2032, 32768, 3);
    sh.reserved_size = u64::MAX;
    assert_eq!(BDA::check_size(&sh), Ok(()));
}

/// The signature block of `sh` with `reserved_size` in place of the size kept
/// free behind the metadata area, and the checksum set anew.
fn with_reserved_size(sh: &StaticHeader, reserved_size: u64) -> [u8; 512] {
    let mut block = sh.sigblock_to_buf();
    LittleEndian::write_u64(&mut block[104..112], reserved_size);
    let crc = crc32c(&block[4..]);
    LittleEndian::write_u32(&mut block[..4], crc);
    block
}

#[test]
fn load_accepts_whatever_reserved_size_is_stored() {
    for reserved_size in [0, 1, 6144, u64::MAX - 16 - 2032, u64::MAX - 16 - 2031, u64::MAX] {
        let (mut buf, mut bda) = sample_device();
        bda.save_state(&at(7, 8), &[4, 5, 6], &mut buf).unwrap();
        let block = with_reserved_size(&bda.header, reserved_size);
        for offset in [512, 4608] {
            buf.seek(offset).unwrap();
            buf.write_all(&block).unwrap();
        }
        let reference = buf.clone();

        let loaded = BDA::load(&mut buf).unwrap().unwrap();
        assert_eq!(loaded.header.reserved_size, reserved_size);
        assert_eq!(loaded.header.mda_size, 2032);
        assert_eq!(loaded.pool_uuid(), 1);
        assert_eq!(loaded.dev_uuid(), 2);
        assert_eq!(loaded.dev_size(), 32768);
        assert_eq!(loaded.max_data_size(), 2032 / 4);
        assert_eq!(loaded.regions, bda.regions);
        assert_eq!(loaded.last_update_time(), Some(&at(7, 8)));
        assert_eq!(loaded.load_state(&mut buf), Ok(Some(vec![4, 5, 6])));
        assert_eq!(buf.get_ref(), reference.get_ref());
        if reserved_size <= u64::MAX - 16 - 2032 {
            assert_eq!(loaded.size(), 16 + 2032 + reserved_size);
        }
    }
}

#[test]
fn check_save_says_why_a_save_is_turned_down() {
    let (mut buf, mut bda) = sample_device();
    let too_long = vec![0u8; 508 * 512 - 31];
    assert_eq!(bda.check_save(&at(5, 0), &[1, 2, 3]), None);
    assert_eq!(bda.check_save(&at(-5, 0), &[1, 2, 3]), None);
    assert_eq!(bda.check_save(&at(0, 0), &vec![0u8; 508 * 512 - 32]), None);
    assert_eq!(
        bda.check_save(&at(5, 0), &too_long),
        Some(Invalid::MetadataTooLong { used: 508 * 512 - 31, available: 508 * 512 })
    );
    bda.save_state(&at(5, 1), &[1, 2, 3], &mut buf).unwrap();
    assert_eq!(bda.check_save(&at(5, 2), &[1]), None);
    for time in [at(5, 1), at(5, 0), at(0, 0), at(-1, 999_999_999), at(i64::MIN, 0)] {
        assert_eq!(bda.check_save(&time, &[1]), Some(Invalid::OverwritingNewer));
        // Newer data is checked before the size.
        assert_eq!(bda.check_save(&time, &too_long), Some(Invalid::OverwritingNewer));
        assert_eq!(bda.regions.check_save(&time, &[1]), Some(Invalid::OverwritingNewer));
    }
    assert_eq!(
        bda.regions.check_save(&at(6, 0), &too_long),
        Some(Invalid::MetadataTooLong { used: 508 * 512 - 31, available: 508 * 512 })
    );
}

#[test]
fn load_repairs_the_static_header_and_reads_the_regions() {
    let (mut buf, mut bda) = sample_device();
    bda.save_state(&at(7, 8), &[4, 5, 6], &mut buf).unwrap();
    let reference = buf.clone();
    buf.seek(4608 + 40).unwrap();
    buf.write_all(&[b'x']).unwrap();
    assert_eq!(BDA::load(&mut buf), Ok(Some(bda)));
    assert_eq!(buf.get_ref(), reference.get_ref());
}
