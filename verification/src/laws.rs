//! What holds of the operations on the static header taken together, on a
//! predictable stream.

use crate::bda::{
    copies_flushed, header_copy, initialized_end, initialized_image, region_bytes_of,
    with_copies, with_copy_at, MetadataLocation, FIRST_SIGBLOCK_OFFSET, SECOND_SIGBLOCK_OFFSET,
    STATIC_HDR_COPY_SIZE,
};
use crate::checksum::crc32c;
use crate::error::{Invalid, MetadataError};
use crate::mda::{area_fits, lemma_header_bytes_len, with_region_headers, MDAHeader};
use crate::static_header::{
    decode_sigblock, identifiers_result, lemma_sigblock_round_trip, lemma_sigblock_shape,
    reconciled, setup_image, setup_result, DevUuid, PoolUuid, StaticHeader, BDA_STATIC_HDR_SIZE,
    SECTOR_SIZE, STRAT_MAGIC,
};
use crate::stream::{can_read, overwrite, touches, zeros};
use vstd::bytes::{
    lemma_auto_spec_u32_to_from_le_bytes, spec_u32_from_le_bytes, spec_u32_to_le_bytes,
};
use vstd::prelude::*;

verus! {

/// The static header as `BDA::write` lays it out at both places, with
/// `sigblock` as the signature block.
pub open spec fn static_header_region(sigblock: Seq<u8>) -> Seq<u8> {
    header_copy(sigblock) + header_copy(sigblock)
}

/// Whether `bytes` begins with both copies of the static header of `header`,
/// as they are written.
pub open spec fn holds_static_header(bytes: Seq<u8>, header: StaticHeader) -> bool {
    &&& bytes.len() >= BDA_STATIC_HDR_SIZE
    &&& bytes.subrange(0, BDA_STATIC_HDR_SIZE as int) == static_header_region(header.sigblock())
}

/// Offset of the signature block of the copy at `which`, for one copy.
pub open spec fn sigblock_offset(which: MetadataLocation) -> int {
    if which == MetadataLocation::Second {
        SECOND_SIGBLOCK_OFFSET as int
    } else {
        FIRST_SIGBLOCK_OFFSET as int
    }
}

/// Whether the signature block of the copy at `which` can be read.
pub open spec fn can_read_sigblock(
    bytes: Seq<u8>,
    unreadable: Set<int>,
    which: MetadataLocation,
) -> bool {
    can_read(bytes, unreadable, sigblock_offset(which), SECTOR_SIZE as int)
}

/// A sector of zeros does not bear the magic number.
pub proof fn lemma_zero_sector_is_not_ours()
    ensures
        decode_sigblock(zeros(SECTOR_SIZE as nat)) == Ok::<Option<StaticHeader>, MetadataError>(
            None,
        ),
{
    let sector = zeros(SECTOR_SIZE as nat);
    assert(sector.subrange(4, 20)[0] == 0u8);
    assert(STRAT_MAGIC@[0] == 0x21u8);
}

/// On a stream that is long enough, one copy of the static header is written
/// as one: a sector of zeros, the signature block, six sectors of zeros.
pub proof fn lemma_copy_written(bytes: Seq<u8>, at: int, sigblock: Seq<u8>)
    requires
        0 <= at,
        at + STATIC_HDR_COPY_SIZE <= bytes.len(),
        sigblock.len() == SECTOR_SIZE,
    ensures
        with_copy_at(bytes, at, sigblock) == overwrite(bytes, at, header_copy(sigblock)),
{
}

/// Writing both copies makes the stream hold the static header, and leaves
/// what lies behind it alone.
pub proof fn lemma_written_copies(bytes: Seq<u8>, header: StaticHeader)
    requires
        bytes.len() >= BDA_STATIC_HDR_SIZE,
    ensures
        holds_static_header(with_copies(bytes, header.sigblock(), MetadataLocation::Both), header),
        with_copies(bytes, header.sigblock(), MetadataLocation::Both).len() == bytes.len(),
        forall|i: int|
            BDA_STATIC_HDR_SIZE <= i < bytes.len() ==> with_copies(
                bytes,
                header.sigblock(),
                MetadataLocation::Both,
            )[i] == bytes[i],
{
    lemma_sigblock_shape(header);
    let image = with_copies(bytes, header.sigblock(), MetadataLocation::Both);
    assert(image.subrange(0, BDA_STATIC_HDR_SIZE as int) =~= static_header_region(
        header.sigblock(),
    ));
}

/// Where a stream holds the static header of a valid header, and at least
/// one of the two signature blocks can be read, `setup` finds the header and
/// leaves the stream holding what it held: a signature block that cannot be
/// read is written anew with what it holds already.
pub proof fn lemma_setup_finds_header(bytes: Seq<u8>, unreadable: Set<int>, header: StaticHeader)
    requires
        header.is_valid(),
        holds_static_header(bytes, header),
        can_read_sigblock(bytes, unreadable, MetadataLocation::First) || can_read_sigblock(
            bytes,
            unreadable,
            MetadataLocation::Second,
        ),
    ensures
        bytes.subrange(512, 1024) == header.sigblock(),
        bytes.subrange(4608, 5120) == header.sigblock(),
        setup_result(bytes, unreadable) == Ok::<Option<StaticHeader>, MetadataError>(
            Some(header),
        ),
        setup_image(bytes, unreadable) == bytes,
{
    lemma_sigblock_shape(header);
    lemma_sigblock_round_trip(header);
    lemma_zero_sector_is_not_ours();
    let block = header.sigblock();
    let region = bytes.subrange(0, BDA_STATIC_HDR_SIZE as int);
    assert(forall|i: int| 0 <= i < BDA_STATIC_HDR_SIZE ==> bytes[i] == region[i]);
    assert(bytes.subrange(512, 1024) =~= block);
    assert(bytes.subrange(4608, 5120) =~= block);
    assert(with_copies(bytes, block, MetadataLocation::First) =~= bytes);
    assert(with_copies(bytes, block, MetadataLocation::Second) =~= bytes);
}

/// Ownership, before a device is initialized: a stream of zeros, of which
/// one of the two sectors of the signature blocks can be read, belongs to no
/// pool, and asking leaves it as it is.
pub proof fn lemma_zeroed_stream_is_unowned(bytes: Seq<u8>, unreadable: Set<int>)
    requires
        forall|i: int| 0 <= i < bytes.len() ==> bytes[i] == 0,
        can_read_sigblock(bytes, unreadable, MetadataLocation::First) || can_read_sigblock(
            bytes,
            unreadable,
            MetadataLocation::Second,
        ),
    ensures
        identifiers_result(bytes, unreadable) == Ok::<Option<(PoolUuid, DevUuid)>, MetadataError>(
            None,
        ),
        setup_image(bytes, unreadable) == bytes,
{
    lemma_zero_sector_is_not_ours();
    if bytes.len() >= 1024 {
        assert(bytes.subrange(512, 1024) =~= zeros(SECTOR_SIZE as nat));
    }
    if bytes.len() >= 5120 {
        assert(bytes.subrange(4608, 5120) =~= zeros(SECTOR_SIZE as nat));
    }
}

/// Ownership, once a device is initialized with a valid header: where one of
/// the two signature blocks can be read, the device is identified by the
/// UUIDs that it was initialized with, and asking leaves it holding what it
/// held.
pub proof fn lemma_initialized_stream_is_owned(
    bytes: Seq<u8>,
    unreadable: Set<int>,
    header: StaticHeader,
)
    requires
        header.is_valid(),
        area_fits(BDA_STATIC_HDR_SIZE, header.mda_size),
        initialized_end(header.mda_size) <= bytes.len(),
        !touches(unreadable, FIRST_SIGBLOCK_OFFSET as int, SECTOR_SIZE as int) || !touches(
            unreadable,
            SECOND_SIGBLOCK_OFFSET as int,
            SECTOR_SIZE as int,
        ),
    ensures
        holds_static_header(initialized_image(bytes, header), header),
        setup_result(initialized_image(bytes, header), unreadable) == Ok::<
            Option<StaticHeader>,
            MetadataError,
        >(Some(header)),
        identifiers_result(initialized_image(bytes, header), unreadable) == Ok::<
            Option<(PoolUuid, DevUuid)>,
            MetadataError,
        >(Some((header.pool_uuid, header.dev_uuid))),
        setup_image(initialized_image(bytes, header), unreadable) == initialized_image(
            bytes,
            header,
        ),
{
    let per_region_size = region_bytes_of(header.mda_size);
    assert(per_region_size * 3 >= 0) by (nonlinear_arith);
    let written = with_copies(bytes, header.sigblock(), MetadataLocation::Both);
    let image = initialized_image(bytes, header);
    lemma_written_copies(bytes, header);
    lemma_header_bytes_len(MDAHeader::empty());
    lemma_region_headers_keep(
        written,
        BDA_STATIC_HDR_SIZE,
        per_region_size,
        MDAHeader::empty().header_bytes(),
        4,
    );
    assert(image.subrange(0, BDA_STATIC_HDR_SIZE as int) =~= written.subrange(
        0,
        BDA_STATIC_HDR_SIZE as int,
    ));
    lemma_setup_finds_header(image, unreadable, header);
}

/// Ownership, after a wipe: a stream whose static header was zeroed, of which
/// one of the two sectors of the signature blocks can be read, belongs to no
/// pool.
pub proof fn lemma_wiped_stream_is_unowned(bytes: Seq<u8>, unreadable: Set<int>)
    requires
        bytes.len() >= BDA_STATIC_HDR_SIZE,
        !touches(unreadable, FIRST_SIGBLOCK_OFFSET as int, SECTOR_SIZE as int) || !touches(
            unreadable,
            SECOND_SIGBLOCK_OFFSET as int,
            SECTOR_SIZE as int,
        ),
    ensures
        identifiers_result(overwrite(bytes, 0, zeros(BDA_STATIC_HDR_SIZE as nat)), unreadable)
            == Ok::<Option<(PoolUuid, DevUuid)>, MetadataError>(None),
        setup_image(overwrite(bytes, 0, zeros(BDA_STATIC_HDR_SIZE as nat)), unreadable)
            == overwrite(bytes, 0, zeros(BDA_STATIC_HDR_SIZE as nat)),
        forall|i: int|
            0 <= i < BDA_STATIC_HDR_SIZE ==> overwrite(
                bytes,
                0,
                zeros(BDA_STATIC_HDR_SIZE as nat),
            )[i] == 0,
{
    lemma_zero_sector_is_not_ours();
    let wiped = overwrite(bytes, 0, zeros(BDA_STATIC_HDR_SIZE as nat));
    assert(wiped.subrange(512, 1024) =~= zeros(SECTOR_SIZE as nat));
    assert(wiped.subrange(4608, 5120) =~= zeros(SECTOR_SIZE as nat));
}

/// Writing region headers keeps the length of the stream and everything
/// before the first region.
pub proof fn lemma_region_headers_keep(
    bytes: Seq<u8>,
    header_size: u64,
    per_region_size: u64,
    header: Seq<u8>,
    count: nat,
)
    ensures
        with_region_headers(bytes, header_size, per_region_size, header, count).len()
            == bytes.len(),
        forall|i: int|
            0 <= i < header_size && i < bytes.len() ==> with_region_headers(
                bytes,
                header_size,
                per_region_size,
                header,
                count,
            )[i] == bytes[i],
    decreases count,
{
    if count > 0 {
        lemma_region_headers_keep(
            bytes,
            header_size,
            per_region_size,
            header,
            (count - 1) as nat,
        );
        assert(per_region_size * (count - 1) >= 0) by (nonlinear_arith)
            requires
                count >= 1,
        ;
    }
}

/// What a signature block says once one of its bytes was changed, where the
/// checksum tells a change behind the magic number: nothing, if the byte
/// belongs to the magic number, else that the checksum is wrong.
pub proof fn lemma_damaged_sigblock(header: StaticHeader, index: int, value: u8)
    requires
        0 <= index < SECTOR_SIZE,
        value != header.sigblock()[index],
        index >= 20 ==> crc32c(header.sigblock().update(index, value).subrange(4, 512)) != crc32c(
            header.sigblock_body(),
        ),
    ensures
        decode_sigblock(header.sigblock().update(index, value)) == (if 4 <= index < 20 {
            Ok::<Option<StaticHeader>, MetadataError>(None)
        } else {
            Err::<Option<StaticHeader>, MetadataError>(
                MetadataError::Invalid(Invalid::HeaderCrc),
            )
        }),
{
    lemma_sigblock_shape(header);
    lemma_auto_spec_u32_to_from_le_bytes();
    let block = header.sigblock();
    let damaged = block.update(index, value);
    if 4 <= index < 20 {
        assert(damaged.subrange(4, 20)[index - 4] == value);
        assert(block.subrange(4, 20)[index - 4] == block[index]);
    } else {
        assert(damaged.subrange(4, 20) =~= block.subrange(4, 20));
        if index < 4 {
            let stored = block.subrange(0, 4);
            let changed = damaged.subrange(0, 4);
            assert(stored =~= spec_u32_to_le_bytes(crc32c(header.sigblock_body())));
            assert(changed[index] == value);
            assert(stored[index] == block[index]);
            assert(damaged.subrange(4, 512) =~= block.subrange(4, 512));
            assert(spec_u32_to_le_bytes(spec_u32_from_le_bytes(changed)) == changed);
            assert(spec_u32_to_le_bytes(spec_u32_from_le_bytes(stored)) == stored);
        } else {
            assert(damaged.subrange(0, 4) =~= block.subrange(0, 4));
            assert(block.subrange(0, 4) =~= spec_u32_to_le_bytes(
                crc32c(header.sigblock_body()),
            ));
        }
    }
}

/// Repair of a single damaged byte: if one byte in exactly one of the two
/// signature blocks is changed, the checksum tells the change where it lies
/// behind the magic number, and the other signature block can be read, then
/// `setup` finds the header and makes the stream what it was before the
/// change, byte for byte.
pub proof fn lemma_single_corruption_is_repaired(
    bytes: Seq<u8>,
    unreadable: Set<int>,
    header: StaticHeader,
    which: MetadataLocation,
    index: int,
    value: u8,
)
    requires
        header.is_valid(),
        holds_static_header(bytes, header),
        which != MetadataLocation::Both,
        0 <= index < SECTOR_SIZE,
        value != header.sigblock()[index],
        index >= 20 ==> crc32c(header.sigblock().update(index, value).subrange(4, 512)) != crc32c(
            header.sigblock_body(),
        ),
        can_read_sigblock(
            bytes,
            unreadable,
            if which == MetadataLocation::First {
                MetadataLocation::Second
            } else {
                MetadataLocation::First
            },
        ),
    ensures
        setup_result(bytes.update(sigblock_offset(which) + index, value), unreadable) == Ok::<
            Option<StaticHeader>,
            MetadataError,
        >(Some(header)),
        setup_image(bytes.update(sigblock_offset(which) + index, value), unreadable) == bytes,
{
    lemma_setup_finds_header(bytes, unreadable, header);
    lemma_damaged_sigblock(header, index, value);
    lemma_sigblock_shape(header);
    lemma_zero_sector_is_not_ours();
    let block = header.sigblock();
    let damaged = bytes.update(sigblock_offset(which) + index, value);
    let region = bytes.subrange(0, BDA_STATIC_HDR_SIZE as int);
    assert(forall|i: int| 0 <= i < BDA_STATIC_HDR_SIZE ==> bytes[i] == region[i]);
    if which == MetadataLocation::First {
        assert(damaged.subrange(512, 1024) =~= block.update(index, value));
        assert(damaged.subrange(4608, 5120) =~= block);
        assert(with_copies(damaged, block, MetadataLocation::First) =~= bytes);
    } else {
        assert(damaged.subrange(512, 1024) =~= block);
        assert(damaged.subrange(4608, 5120) =~= block.update(index, value));
        assert(with_copies(damaged, block, MetadataLocation::Second) =~= bytes);
    }
}

/// Repair of a single damaged byte in the checksum or in the magic number:
/// if one of the first 20 bytes of exactly one of the two signature blocks is
/// changed, and the other signature block can be read, then `setup` finds the
/// header and makes the stream what it was before the change, byte for byte.
/// Nothing need be known of the checksum for that.
pub proof fn lemma_damage_before_the_fields_is_repaired(
    bytes: Seq<u8>,
    unreadable: Set<int>,
    header: StaticHeader,
    which: MetadataLocation,
    index: int,
    value: u8,
)
    requires
        header.is_valid(),
        holds_static_header(bytes, header),
        which != MetadataLocation::Both,
        0 <= index < 20,
        value != header.sigblock()[index],
        can_read_sigblock(
            bytes,
            unreadable,
            if which == MetadataLocation::First {
                MetadataLocation::Second
            } else {
                MetadataLocation::First
            },
        ),
    ensures
        setup_result(bytes.update(sigblock_offset(which) + index, value), unreadable) == Ok::<
            Option<StaticHeader>,
            MetadataError,
        >(Some(header)),
        setup_image(bytes.update(sigblock_offset(which) + index, value), unreadable) == bytes,
{
    lemma_single_corruption_is_repaired(bytes, unreadable, header, which, index, value);
}

/// Damage to both copies in the checksum or in the magic number: if one of
/// the first 20 bytes of each of the two signature blocks is changed, and
/// both signature blocks can be read, then `setup` finds no pool where both
/// changes hit the magic number, and fails where either hits the checksum.
/// Nothing is rewritten, and nothing need be known of the checksum.
pub proof fn lemma_double_damage_before_the_fields(
    bytes: Seq<u8>,
    unreadable: Set<int>,
    header: StaticHeader,
    first_index: int,
    first_value: u8,
    second_index: int,
    second_value: u8,
)
    requires
        header.is_valid(),
        holds_static_header(bytes, header),
        can_read_sigblock(bytes, unreadable, MetadataLocation::First),
        can_read_sigblock(bytes, unreadable, MetadataLocation::Second),
        0 <= first_index < 20,
        0 <= second_index < 20,
        first_value != header.sigblock()[first_index],
        second_value != header.sigblock()[second_index],
    ensures
        ({
            let damaged = bytes.update(FIRST_SIGBLOCK_OFFSET + first_index, first_value).update(
                SECOND_SIGBLOCK_OFFSET + second_index,
                second_value,
            );
            &&& setup_image(damaged, unreadable) == damaged
            &&& 4 <= first_index && 4 <= second_index ==> setup_result(damaged, unreadable)
                == Ok::<Option<StaticHeader>, MetadataError>(None)
            &&& first_index < 4 || second_index < 4 ==> setup_result(damaged, unreadable) is Err
        }),
{
    lemma_double_corruption(
        bytes,
        unreadable,
        header,
        first_index,
        first_value,
        second_index,
        second_value,
    );
}

/// Damage to both copies: if one byte in each of the two signature blocks is
/// changed, the checksum tells a change where it lies behind the magic
/// number, and both signature blocks can be read, then `setup` finds no pool
/// where both changes hit the magic number, and fails where either does not.
/// Nothing is rewritten.
pub proof fn lemma_double_corruption(
    bytes: Seq<u8>,
    unreadable: Set<int>,
    header: StaticHeader,
    first_index: int,
    first_value: u8,
    second_index: int,
    second_value: u8,
)
    requires
        header.is_valid(),
        holds_static_header(bytes, header),
        can_read_sigblock(bytes, unreadable, MetadataLocation::First),
        can_read_sigblock(bytes, unreadable, MetadataLocation::Second),
        0 <= first_index < SECTOR_SIZE,
        0 <= second_index < SECTOR_SIZE,
        first_value != header.sigblock()[first_index],
        second_value != header.sigblock()[second_index],
        first_index >= 20 ==> crc32c(
            header.sigblock().update(first_index, first_value).subrange(4, 512),
        ) != crc32c(header.sigblock_body()),
        second_index >= 20 ==> crc32c(
            header.sigblock().update(second_index, second_value).subrange(4, 512),
        ) != crc32c(header.sigblock_body()),
    ensures
        ({
            let damaged = bytes.update(FIRST_SIGBLOCK_OFFSET + first_index, first_value).update(
                SECOND_SIGBLOCK_OFFSET + second_index,
                second_value,
            );
            &&& setup_image(damaged, unreadable) == damaged
            &&& setup_result(damaged, unreadable) == (if 4 <= first_index < 20 && 4
                <= second_index < 20 {
                Ok::<Option<StaticHeader>, MetadataError>(None)
            } else if 4 <= first_index < 20 || 4 <= second_index < 20 {
                Err::<Option<StaticHeader>, MetadataError>(
                    MetadataError::Invalid(Invalid::HeaderCrc),
                )
            } else {
                Err::<Option<StaticHeader>, MetadataError>(
                    MetadataError::Invalid(Invalid::NoValidSigblock),
                )
            })
        }),
{
    lemma_setup_finds_header(bytes, unreadable, header);
    lemma_damaged_sigblock(header, first_index, first_value);
    lemma_damaged_sigblock(header, second_index, second_value);
    lemma_sigblock_shape(header);
    let block = header.sigblock();
    let damaged = bytes.update(FIRST_SIGBLOCK_OFFSET + first_index, first_value).update(
        SECOND_SIGBLOCK_OFFSET + second_index,
        second_value,
    );
    assert(damaged.subrange(512, 1024) =~= block.update(first_index, first_value));
    assert(damaged.subrange(4608, 5120) =~= block.update(second_index, second_value));
}

/// Rewrite of the older copy: where both signature blocks can be read and
/// hold a header, and the second was initialized earlier than the first,
/// `setup` returns the header of the first and makes the second copy equal to
/// the first, byte for byte; where the first was initialized earlier, or at
/// the same time with another header, it is the first copy that is made equal
/// to the second.
pub proof fn lemma_older_copy_is_rewritten(
    bytes: Seq<u8>,
    unreadable: Set<int>,
    first: StaticHeader,
    second: StaticHeader,
)
    requires
        bytes.len() >= BDA_STATIC_HDR_SIZE,
        can_read_sigblock(bytes, unreadable, MetadataLocation::First),
        can_read_sigblock(bytes, unreadable, MetadataLocation::Second),
        decode_sigblock(bytes.subrange(512, 1024)) == Ok::<Option<StaticHeader>, MetadataError>(
            Some(first),
        ),
        decode_sigblock(bytes.subrange(4608, 5120)) == Ok::<Option<StaticHeader>, MetadataError>(
            Some(second),
        ),
        first != second,
    ensures
        second.initialization_time < first.initialization_time ==> {
            &&& setup_result(bytes, unreadable) == Ok::<Option<StaticHeader>, MetadataError>(
                Some(first),
            )
            &&& setup_image(bytes, unreadable) == overwrite(
                bytes,
                STATIC_HDR_COPY_SIZE as int,
                header_copy(bytes.subrange(512, 1024)),
            )
            &&& setup_image(bytes, unreadable).subrange(4608, 5120) == bytes.subrange(512, 1024)
            &&& setup_image(bytes, unreadable).subrange(0, 4096) == bytes.subrange(0, 4096)
        },
        second.initialization_time >= first.initialization_time ==> {
            &&& setup_result(bytes, unreadable) == Ok::<Option<StaticHeader>, MetadataError>(
                Some(second),
            )
            &&& setup_image(bytes, unreadable) == overwrite(
                bytes,
                0,
                header_copy(bytes.subrange(4608, 5120)),
            )
            &&& setup_image(bytes, unreadable).subrange(512, 1024) == bytes.subrange(4608, 5120)
            &&& setup_image(bytes, unreadable).subrange(4096, 8192) == bytes.subrange(4096, 8192)
        },
{
    let image = setup_image(bytes, unreadable);
    if second.initialization_time < first.initialization_time {
        assert(image.subrange(4608, 5120) =~= bytes.subrange(512, 1024));
        assert(image.subrange(0, 4096) =~= bytes.subrange(0, 4096));
    } else {
        assert(image.subrange(512, 1024) =~= bytes.subrange(4608, 5120));
        assert(image.subrange(4096, 8192) =~= bytes.subrange(4096, 8192));
    }
}

/// Repair of a copy that cannot be read: where the signature block of one
/// copy cannot be read and the other holds a header, `setup` returns that
/// header and writes the copy that cannot be read anew from the other.
pub proof fn lemma_unreadable_copy_is_rewritten(
    bytes: Seq<u8>,
    unreadable: Set<int>,
    which: MetadataLocation,
    header: StaticHeader,
)
    requires
        bytes.len() >= BDA_STATIC_HDR_SIZE,
        which != MetadataLocation::Both,
        !can_read_sigblock(bytes, unreadable, which),
        ({
            let other = if which == MetadataLocation::First {
                MetadataLocation::Second
            } else {
                MetadataLocation::First
            };
            &&& can_read_sigblock(bytes, unreadable, other)
            &&& decode_sigblock(
                bytes.subrange(sigblock_offset(other), sigblock_offset(other) + SECTOR_SIZE),
            ) == Ok::<Option<StaticHeader>, MetadataError>(Some(header))
        }),
    ensures
        setup_result(bytes, unreadable) == Ok::<Option<StaticHeader>, MetadataError>(
            Some(header),
        ),
        setup_image(bytes, unreadable) == with_copies(
            bytes,
            if which == MetadataLocation::First {
                bytes.subrange(4608, 5120)
            } else {
                bytes.subrange(512, 1024)
            },
            which,
        ),
{
    lemma_zero_sector_is_not_ours();
}

/// `setup` keeps the length of the stream and touches nothing behind the
/// static header.
pub proof fn lemma_setup_keeps_what_follows(bytes: Seq<u8>, unreadable: Set<int>)
    ensures
        setup_image(bytes, unreadable).len() == bytes.len(),
        forall|i: int|
            BDA_STATIC_HDR_SIZE <= i < bytes.len() ==> setup_image(bytes, unreadable)[i]
                == bytes[i],
{
}

/// The static header is written copy by copy: when both copies are written,
/// what is made durable first is the stream with the first copy written and
/// the second as it was, and then the stream with both written. A failure
/// in between finds one copy that is whole.
pub proof fn lemma_copies_are_flushed_in_turn(bytes: Seq<u8>, sigblock: Seq<u8>)
    requires
        bytes.len() >= BDA_STATIC_HDR_SIZE,
        sigblock.len() == SECTOR_SIZE,
    ensures
        ({
            let flushed = copies_flushed(bytes, sigblock, MetadataLocation::Both);
            &&& flushed.len() == 2
            &&& flushed[0].subrange(0, 4096) == header_copy(sigblock)
            &&& flushed[0].subrange(4096, bytes.len() as int) == bytes.subrange(
                4096,
                bytes.len() as int,
            )
            &&& flushed[1] == with_copies(bytes, sigblock, MetadataLocation::Both)
            &&& flushed[1].subrange(0, 4096) == header_copy(sigblock)
            &&& flushed[1].subrange(4096, 8192) == header_copy(sigblock)
        }),
{
    let flushed = copies_flushed(bytes, sigblock, MetadataLocation::Both);
    assert(flushed[0].subrange(0, 4096) =~= header_copy(sigblock));
    assert(flushed[0].subrange(4096, bytes.len() as int) =~= bytes.subrange(
        4096,
        bytes.len() as int,
    ));
    assert(flushed[1].subrange(0, 4096) =~= header_copy(sigblock));
    assert(flushed[1].subrange(4096, 8192) =~= header_copy(sigblock));
}

/// After a `setup` that found a header, both signature blocks hold that
/// header, and another `setup` finds it again.
pub proof fn lemma_setup_leaves_copies_that_agree(
    bytes: Seq<u8>,
    unreadable: Set<int>,
    header: StaticHeader,
)
    requires
        setup_result(bytes, unreadable) == Ok::<Option<StaticHeader>, MetadataError>(
            Some(header),
        ),
    ensures
        setup_image(bytes, unreadable).len() == bytes.len(),
        bytes.len() >= SECOND_SIGBLOCK_OFFSET + SECTOR_SIZE,
        decode_sigblock(setup_image(bytes, unreadable).subrange(512, 1024)) == Ok::<
            Option<StaticHeader>,
            MetadataError,
        >(Some(header)),
        decode_sigblock(setup_image(bytes, unreadable).subrange(4608, 5120)) == Ok::<
            Option<StaticHeader>,
            MetadataError,
        >(Some(header)),
{
    lemma_zero_sector_is_not_ours();
    let image = setup_image(bytes, unreadable);
    let first_read = can_read_sigblock(bytes, unreadable, MetadataLocation::First);
    let second_read = can_read_sigblock(bytes, unreadable, MetadataLocation::Second);
    let first = if first_read {
        bytes.subrange(512, 1024)
    } else {
        zeros(SECTOR_SIZE as nat)
    };
    let second = if second_read {
        bytes.subrange(4608, 5120)
    } else {
        zeros(SECTOR_SIZE as nat)
    };
    match reconciled(first, second).1 {
        None => {},
        Some(MetadataLocation::Second) => {
            assert(image.subrange(512, 1024) =~= first);
            assert(image.subrange(4608, 5120) =~= first);
        },
        Some(_) => {
            assert(image.subrange(512, 1024) =~= second);
            assert(image.subrange(4608, 5120) =~= second);
        },
    }
}

} // verus!
