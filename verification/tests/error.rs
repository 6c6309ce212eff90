use blockdev_metadata::buffer::{put, same_bytes};
use blockdev_metadata::error::Invalid;

#[test]
fn faults_say_what_is_wrong() {
    assert_eq!(Invalid::HeaderCrc.message(), "header CRC invalid");
    assert_eq!(Invalid::SigblockVersion(7).message(), "unknown sigblock version");
    assert_eq!(Invalid::NoValidSigblock.message(), "no valid sigblock");
    assert_eq!(Invalid::OverwritingNewer.message(), "overwriting newer data");
    assert_eq!(
        Invalid::MetadataTooLong { used: 9, available: 8 }.message(),
        "metadata length exceeds region"
    );
    assert_eq!(Invalid::RegionDataCrc.message(), "MDA region data CRC");
    assert_eq!(Invalid::RegionHeaderCrc.message(), "MDA region header CRC");
}

#[test]
fn every_fault_has_its_own_message() {
    let faults = [
        Invalid::HeaderCrc,
        Invalid::SigblockVersion(0),
        Invalid::NoValidSigblock,
        Invalid::MdaSizeNotDivisible(0),
        Invalid::MdaSizeTooSmall(0),
        Invalid::MdaSizeTooLarge(0),
        Invalid::RegionHeaderCrc,
        Invalid::RegionHeaderVersion(0),
        Invalid::MetadataVersion(0),
        Invalid::MetadataTooLong { used: 0, available: 0 },
        Invalid::TimestampOutOfRange(0),
        Invalid::RegionDataCrc,
        Invalid::OverwritingNewer,
    ];
    for (i, a) in faults.iter().enumerate() {
        assert!(!a.message().is_empty());
        for b in &faults[i + 1..] {
            assert_ne!(a.message(), b.message());
        }
    }
}

#[test]
fn put_copies_into_place() {
    let mut buf = [0u8; 8];
    put(&mut buf, 2, &[1, 2, 3]);
    assert_eq!(buf, [0, 0, 1, 2, 3, 0, 0, 0]);
    put(&mut buf, 5, &[9, 9, 9]);
    assert_eq!(buf, [0, 0, 1, 2, 3, 9, 9, 9]);
    put(&mut buf, 8, &[]);
    assert_eq!(buf, [0, 0, 1, 2, 3, 9, 9, 9]);
}

#[test]
fn same_bytes_compares_length_and_contents() {
    assert!(same_bytes(&[], &[]));
    assert!(same_bytes(&[1, 2], &[1, 2]));
    assert!(!same_bytes(&[1, 2], &[1, 3]));
    assert!(!same_bytes(&[1, 2], &[1]));
    assert!(!same_bytes(&[], &[0]));
}
