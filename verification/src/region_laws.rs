//! What holds of saving and loading metadata, on a predictable stream.

use crate::bda::{
    bda_size_fault, initialized_end, initialized_image, load_result, region_bytes_of, with_copies,
    MetadataLocation,
};
use crate::error::{Invalid, MetadataError};
use crate::laws::{
    can_read_sigblock, lemma_initialized_stream_is_owned, lemma_region_headers_keep,
    lemma_setup_finds_header,
};
use crate::mda::{
    lemma_header_bytes_len, lemma_region_header_round_trip, payload_at, region_offset,
    slot_on_device, slots_on_device, with_record_at, with_region_headers, MDAHeader, MDARegions,
    Timestamp, MDA_REGION_HDR_SIZE,
};
use crate::static_header::{StaticHeader, BDA_STATIC_HDR_SIZE};
use crate::stream::{can_read, overwrite};
use vstd::prelude::*;

verus! {

/// Whether `regions` can take `data` at `time` on a stream of `len` bytes
/// whose regions begin behind `header_size` bytes: nothing on the stream is
/// as new, the data fits into a region, and the stream reaches to the end of
/// the second copy.
pub open spec fn can_save(
    regions: MDARegions,
    len: nat,
    header_size: u64,
    time: Timestamp,
    data: Seq<u8>,
) -> bool {
    &&& regions.fits_behind(header_size)
    &&& data.len() <= u64::MAX
    &&& regions.save_fault(time, data) is None
    &&& regions.saved_end(header_size, data) <= len
}

/// Whether the header of one of the two copies of `slot` can be read.
pub open spec fn can_read_slot_header(
    bytes: Seq<u8>,
    unreadable: Set<int>,
    header_size: u64,
    per_region_size: u64,
    slot: int,
) -> bool {
    ||| can_read(
        bytes,
        unreadable,
        region_offset(header_size, slot, per_region_size),
        MDA_REGION_HDR_SIZE as int,
    )
    ||| can_read(
        bytes,
        unreadable,
        region_offset(header_size, slot + 2, per_region_size),
        MDA_REGION_HDR_SIZE as int,
    )
}

/// Whether `len` bytes of metadata can be read from one of the two copies of
/// `slot`.
pub open spec fn can_read_slot_data(
    bytes: Seq<u8>,
    unreadable: Set<int>,
    header_size: u64,
    per_region_size: u64,
    slot: int,
    len: int,
) -> bool {
    ||| can_read(
        bytes,
        unreadable,
        region_offset(header_size, slot, per_region_size) + MDA_REGION_HDR_SIZE,
        len,
    )
    ||| can_read(
        bytes,
        unreadable,
        region_offset(header_size, slot + 2, per_region_size) + MDA_REGION_HDR_SIZE,
        len,
    )
}

/// On a stream that is long enough, a region header and the metadata behind
/// it are written as one.
pub proof fn lemma_record_written(bytes: Seq<u8>, at: int, header: Seq<u8>, data: Seq<u8>)
    requires
        0 <= at,
        at + header.len() + data.len() <= bytes.len(),
    ensures
        with_record_at(bytes, at, header, data) == overwrite(bytes, at, header + data),
{
}

/// Where the two copies of a slot begin.
pub proof fn lemma_slot_offsets(header_size: u64, slot: int, per_region_size: u64)
    requires
        0 <= slot < 2,
    ensures
        region_offset(header_size, slot, per_region_size) == (if slot == 0 {
            header_size as int
        } else {
            header_size + per_region_size
        }),
        region_offset(header_size, slot + 2, per_region_size) == region_offset(
            header_size,
            slot,
            per_region_size,
        ) + 2 * per_region_size,
{
    assert(per_region_size * (slot + 2) == per_region_size * slot + 2 * per_region_size)
        by (nonlinear_arith);
    if slot == 0 {
        assert(per_region_size * slot == 0) by (nonlinear_arith)
            requires
                slot == 0,
        ;
    } else {
        assert(per_region_size * slot == per_region_size) by (nonlinear_arith)
            requires
                slot == 1,
        ;
    }
}

/// What saving does to a stream: both copies of the older slot hold the new
/// header and the data, and every byte outside these two regions is as it
/// was. The newer slot is not touched.
pub proof fn lemma_saved_image(
    regions: MDARegions,
    bytes: Seq<u8>,
    header_size: u64,
    time: Timestamp,
    data: Seq<u8>,
)
    requires
        can_save(regions, bytes.len(), header_size, time, data),
    ensures
        ({
            let image = regions.saved_image(bytes, header_size, time, data);
            let per_region_size = regions.region_bytes() as u64;
            let record = MDARegions::header_for(time, data).header_bytes() + data;
            let first = region_offset(header_size, regions.older_slot(), per_region_size);
            let second = region_offset(header_size, regions.older_slot() + 2, per_region_size);
            &&& image.len() == bytes.len()
            &&& record.len() == MDA_REGION_HDR_SIZE + data.len()
            &&& record.len() <= per_region_size
            &&& second == first + 2 * per_region_size
            &&& image.subrange(first, first + record.len()) == record
            &&& image.subrange(second, second + record.len()) == record
            &&& forall|i: int|
                0 <= i < bytes.len() && !(first <= i < first + per_region_size) && !(second <= i
                    < second + per_region_size) ==> image[i] == bytes[i]
        }),
{
    let image = regions.saved_image(bytes, header_size, time, data);
    let per_region_size = regions.region_bytes() as u64;
    let record = MDARegions::header_for(time, data).header_bytes() + data;
    lemma_header_bytes_len(MDARegions::header_for(time, data));
    let slot = regions.older_slot();
    let first = region_offset(header_size, slot, per_region_size);
    let second = region_offset(header_size, slot + 2, per_region_size);
    lemma_slot_offsets(header_size, slot, per_region_size);
    assert(image.subrange(first, first + record.len()) =~= record);
    assert(image.subrange(second, second + record.len()) =~= record);
}

/// Metadata is saved copy by copy: what is made durable first is the stream
/// with the first copy of the older slot written and everything else as it
/// was, and then the stream with both copies written. A failure in between
/// finds the newer slot whole, in both of its copies.
pub proof fn lemma_save_is_flushed_in_turn(
    regions: MDARegions,
    bytes: Seq<u8>,
    header_size: u64,
    time: Timestamp,
    data: Seq<u8>,
)
    requires
        can_save(regions, bytes.len(), header_size, time, data),
    ensures
        ({
            let flushed = regions.saved_flushed(bytes, header_size, time, data);
            let per_region_size = regions.region_bytes() as u64;
            let first = region_offset(header_size, regions.older_slot(), per_region_size);
            &&& flushed.len() == 2
            &&& flushed[0].len() == bytes.len()
            &&& forall|i: int|
                0 <= i < bytes.len() && !(first <= i < first + per_region_size)
                    ==> flushed[0][i] == bytes[i]
            &&& flushed[1] == regions.saved_image(bytes, header_size, time, data)
        }),
{
    lemma_saved_image(regions, bytes, header_size, time, data);
    lemma_slot_offsets(header_size, regions.older_slot(), regions.region_bytes() as u64);
}

/// After a save, the slot that was written is the newer one, and its time is
/// the time of the save.
pub proof fn lemma_saved_slot_is_newer(
    before: MDARegions,
    after: MDARegions,
    time: Timestamp,
    data: Seq<u8>,
)
    requires
        before.save_fault(time, data) is None,
        after.is_saved_from(before, time, data),
    ensures
        after.newer_slot() == before.older_slot(),
        after.mdas[after.newer_slot()] == Some(MDARegions::header_for(time, data)),
        after.newest() == Some(time),
{
}

/// Save and load: after `data` was saved at `time`, the time of the last
/// update is `time`, and the state on the stream is `data` if one of the two
/// copies of the data can be read.
pub proof fn lemma_save_then_load(
    before: MDARegions,
    after: MDARegions,
    bytes: Seq<u8>,
    unreadable: Set<int>,
    header_size: u64,
    time: Timestamp,
    data: Seq<u8>,
)
    requires
        can_save(before, bytes.len(), header_size, time, data),
        after.is_saved_from(before, time, data),
        can_read_slot_data(
            bytes,
            unreadable,
            header_size,
            before.region_bytes() as u64,
            before.older_slot(),
            data.len() as int,
        ),
    ensures
        after.newest() == Some(time),
        after.state_on_device(
            before.saved_image(bytes, header_size, time, data),
            unreadable,
            header_size,
        ) == Ok::<Option<Seq<u8>>, MetadataError>(Some(data)),
{
    lemma_saved_slot_is_newer(before, after, time, data);
    lemma_saved_image(before, bytes, header_size, time, data);
    let image = before.saved_image(bytes, header_size, time, data);
    let header = MDARegions::header_for(time, data);
    let per_region_size = before.region_bytes() as u64;
    let record = header.header_bytes() + data;
    let first = region_offset(header_size, before.older_slot(), per_region_size);
    let second = region_offset(header_size, before.older_slot() + 2, per_region_size);
    assert(after.region_bytes() == before.region_bytes());
    assert(record.subrange(MDA_REGION_HDR_SIZE as int, record.len() as int) =~= data);
    assert(image.subrange(first + MDA_REGION_HDR_SIZE, first + MDA_REGION_HDR_SIZE + data.len())
        =~= image.subrange(first, first + record.len()).subrange(
        MDA_REGION_HDR_SIZE as int,
        record.len() as int,
    ));
    assert(image.subrange(second + MDA_REGION_HDR_SIZE, second + MDA_REGION_HDR_SIZE + data.len())
        =~= image.subrange(second, second + record.len()).subrange(
        MDA_REGION_HDR_SIZE as int,
        record.len() as int,
    ));
    let primary = payload_at(image, unreadable, first + MDA_REGION_HDR_SIZE, header);
    let secondary = payload_at(image, unreadable, second + MDA_REGION_HDR_SIZE, header);
    assert(primary is Ok ==> primary == Ok::<Seq<u8>, MetadataError>(data));
    assert(secondary is Ok ==> secondary == Ok::<Seq<u8>, MetadataError>(data));
    assert(primary is Ok || secondary is Ok);
}

/// Monotonic save: once `data` was saved at `time`, a save at that time or
/// an earlier one is turned down as overwriting newer data, whatever it
/// brings -- so that it changes neither the regions nor the stream -- and
/// the state on the stream is still `data`, if one of the two copies of the
/// data can be read.
pub proof fn lemma_monotonic_save(
    before: MDARegions,
    after: MDARegions,
    bytes: Seq<u8>,
    unreadable: Set<int>,
    header_size: u64,
    time: Timestamp,
    data: Seq<u8>,
    earlier: Timestamp,
    other_data: Seq<u8>,
)
    requires
        can_save(before, bytes.len(), header_size, time, data),
        after.is_saved_from(before, time, data),
        !time.is_before(earlier),
        can_read_slot_data(
            bytes,
            unreadable,
            header_size,
            before.region_bytes() as u64,
            before.older_slot(),
            data.len() as int,
        ),
    ensures
        after.save_fault(earlier, other_data) == Some(Invalid::OverwritingNewer),
        after.state_on_device(
            before.saved_image(bytes, header_size, time, data),
            unreadable,
            header_size,
        ) == Ok::<Option<Seq<u8>>, MetadataError>(Some(data)),
{
    lemma_save_then_load(before, after, bytes, unreadable, header_size, time, data);
}

/// A metadata area that was just initialized loads as two slots that were
/// never written, if of each slot the header of one copy can be read.
pub proof fn lemma_fresh_regions_load_empty(
    bytes: Seq<u8>,
    unreadable: Set<int>,
    header_size: u64,
    per_region_size: u64,
)
    requires
        per_region_size >= MDA_REGION_HDR_SIZE,
        header_size + 4 * per_region_size <= u64::MAX,
        region_offset(header_size, 3, per_region_size) + MDA_REGION_HDR_SIZE <= bytes.len(),
        can_read_slot_header(bytes, unreadable, header_size, per_region_size, 0),
        can_read_slot_header(bytes, unreadable, header_size, per_region_size, 1),
    ensures
        slots_on_device(
            with_region_headers(
                bytes,
                header_size,
                per_region_size,
                MDAHeader::empty().header_bytes(),
                4,
            ),
            unreadable,
            header_size,
            per_region_size,
        ) == Ok::<(Option<MDAHeader>, Option<MDAHeader>), MetadataError>((None, None)),
{
    let header = MDAHeader::empty().header_bytes();
    let image = with_region_headers(bytes, header_size, per_region_size, header, 4);
    lemma_header_bytes_len(MDAHeader::empty());
    lemma_region_header_round_trip(MDAHeader::empty(), per_region_size);
    reveal_with_fuel(with_region_headers, 5);
    let at0 = region_offset(header_size, 0, per_region_size);
    let at1 = region_offset(header_size, 1, per_region_size);
    let at2 = region_offset(header_size, 2, per_region_size);
    let at3 = region_offset(header_size, 3, per_region_size);
    assert(image.subrange(at0, at0 + MDA_REGION_HDR_SIZE) =~= header);
    assert(image.subrange(at1, at1 + MDA_REGION_HDR_SIZE) =~= header);
    assert(image.subrange(at2, at2 + MDA_REGION_HDR_SIZE) =~= header);
    assert(image.subrange(at3, at3 + MDA_REGION_HDR_SIZE) =~= header);
}

/// A save keeps the stream in step with the regions: where the stream said
/// what the regions held before the save, the time of the save lies behind
/// the epoch, and the header of one copy of the slot that is written can be
/// read, the stream says what the regions hold after the save.
pub proof fn lemma_save_keeps_stream_in_step(
    before: MDARegions,
    after: MDARegions,
    bytes: Seq<u8>,
    unreadable: Set<int>,
    header_size: u64,
    time: Timestamp,
    data: Seq<u8>,
)
    requires
        can_save(before, bytes.len(), header_size, time, data),
        after.is_saved_from(before, time, data),
        time.secs > 0,
        slots_on_device(bytes, unreadable, header_size, before.region_bytes() as u64) == Ok::<
            (Option<MDAHeader>, Option<MDAHeader>),
            MetadataError,
        >((before.mdas[0], before.mdas[1])),
        can_read_slot_header(
            bytes,
            unreadable,
            header_size,
            before.region_bytes() as u64,
            before.older_slot(),
        ),
    ensures
        slots_on_device(
            before.saved_image(bytes, header_size, time, data),
            unreadable,
            header_size,
            before.region_bytes() as u64,
        ) == Ok::<(Option<MDAHeader>, Option<MDAHeader>), MetadataError>(
            (after.mdas[0], after.mdas[1]),
        ),
{
    lemma_saved_image(before, bytes, header_size, time, data);
    let image = before.saved_image(bytes, header_size, time, data);
    let header = MDARegions::header_for(time, data);
    let per_region_size = before.region_bytes() as u64;
    let record = header.header_bytes() + data;
    lemma_header_bytes_len(header);
    lemma_region_header_round_trip(header, per_region_size);
    let written = before.older_slot();
    let kept = before.newer_slot();
    let first = region_offset(header_size, written, per_region_size);
    let second = region_offset(header_size, written + 2, per_region_size);
    assert(record.subrange(0, MDA_REGION_HDR_SIZE as int) =~= header.header_bytes());
    assert(image.subrange(first, first + MDA_REGION_HDR_SIZE) =~= image.subrange(
        first,
        first + record.len(),
    ).subrange(0, MDA_REGION_HDR_SIZE as int));
    assert(image.subrange(second, second + MDA_REGION_HDR_SIZE) =~= image.subrange(
        second,
        second + record.len(),
    ).subrange(0, MDA_REGION_HDR_SIZE as int));
    assert(slot_on_device(image, unreadable, header_size, per_region_size, written) == Ok::<
        Option<MDAHeader>,
        MetadataError,
    >(Some(header)));
    let kept_first = region_offset(header_size, kept, per_region_size);
    let kept_second = region_offset(header_size, kept + 2, per_region_size);
    lemma_slot_offsets(header_size, written, per_region_size);
    lemma_slot_offsets(header_size, kept, per_region_size);
    if kept_first + MDA_REGION_HDR_SIZE <= bytes.len() {
        assert(image.subrange(kept_first, kept_first + MDA_REGION_HDR_SIZE) =~= bytes.subrange(
            kept_first,
            kept_first + MDA_REGION_HDR_SIZE,
        ));
    }
    if kept_second + MDA_REGION_HDR_SIZE <= bytes.len() {
        assert(image.subrange(kept_second, kept_second + MDA_REGION_HDR_SIZE) =~= bytes.subrange(
            kept_second,
            kept_second + MDA_REGION_HDR_SIZE,
        ));
    }
    assert(slot_on_device(image, unreadable, header_size, per_region_size, kept)
        == slot_on_device(bytes, unreadable, header_size, per_region_size, kept));
}

/// A save does not touch the static header.
pub proof fn lemma_save_keeps_static_header(
    regions: MDARegions,
    bytes: Seq<u8>,
    time: Timestamp,
    data: Seq<u8>,
)
    requires
        bytes.len() >= BDA_STATIC_HDR_SIZE,
        can_save(regions, bytes.len(), BDA_STATIC_HDR_SIZE, time, data),
    ensures
        regions.saved_image(bytes, BDA_STATIC_HDR_SIZE, time, data).subrange(
            0,
            BDA_STATIC_HDR_SIZE as int,
        ) == bytes.subrange(0, BDA_STATIC_HDR_SIZE as int),
{
    lemma_saved_image(regions, bytes, BDA_STATIC_HDR_SIZE, time, data);
    let image = regions.saved_image(bytes, BDA_STATIC_HDR_SIZE, time, data);
    let per_region_size = regions.region_bytes() as u64;
    lemma_slot_offsets(BDA_STATIC_HDR_SIZE, regions.older_slot(), per_region_size);
    assert(image.subrange(0, BDA_STATIC_HDR_SIZE as int) =~= bytes.subrange(
        0,
        BDA_STATIC_HDR_SIZE as int,
    ));
}

/// Whether enough of a device area can be read for it to be loaded: one of
/// the two signature blocks, and of each slot the header of one copy.
pub open spec fn can_read_device_area(bytes: Seq<u8>, unreadable: Set<int>, mda_size: u64) -> bool {
    &&& can_read_sigblock(bytes, unreadable, MetadataLocation::First) || can_read_sigblock(
        bytes,
        unreadable,
        MetadataLocation::Second,
    )
    &&& can_read_slot_header(bytes, unreadable, BDA_STATIC_HDR_SIZE, region_bytes_of(mda_size), 0)
    &&& can_read_slot_header(bytes, unreadable, BDA_STATIC_HDR_SIZE, region_bytes_of(mda_size), 1)
}

/// Loading a device right after it was initialized with a valid header finds
/// that header and two slots that were never written, if enough of the
/// device area can be read.
pub proof fn lemma_initialize_then_load(
    bytes: Seq<u8>,
    unreadable: Set<int>,
    header: StaticHeader,
)
    requires
        header.is_valid(),
        bda_size_fault(header.mda_size) is None,
        initialized_end(header.mda_size) <= bytes.len(),
        can_read_device_area(bytes, unreadable, header.mda_size),
    ensures
        load_result(initialized_image(bytes, header), unreadable) == Ok::<
            Option<(StaticHeader, (Option<MDAHeader>, Option<MDAHeader>))>,
            MetadataError,
        >(Some((header, (None, None)))),
{
    lemma_initialized_stream_is_owned(bytes, unreadable, header);
    let written = with_copies(bytes, header.sigblock(), MetadataLocation::Both);
    assert(region_bytes_of(header.mda_size) * 3 >= 0) by (nonlinear_arith);
    lemma_fresh_regions_load_empty(
        written,
        unreadable,
        BDA_STATIC_HDR_SIZE,
        region_bytes_of(header.mda_size),
    );
}

/// Reopen: after a device was initialized with a valid header and `data` was
/// saved to it at `time`, loading the device from the stream finds the
/// header and the slots that the device area in memory holds, so that the
/// state is `data` and the time of the last update is `time`. The time must
/// lie behind the epoch: seconds of zero mark a slot that was never written.
/// Enough of the device area must be readable for it to be loaded, and one
/// of the two copies of the data.
pub proof fn lemma_reopen(
    bytes: Seq<u8>,
    unreadable: Set<int>,
    header: StaticHeader,
    fresh: MDARegions,
    after: MDARegions,
    time: Timestamp,
    data: Seq<u8>,
)
    requires
        header.is_valid(),
        bda_size_fault(header.mda_size) is None,
        initialized_end(header.mda_size) <= bytes.len(),
        fresh.region_size == header.mda_size / 4,
        fresh.mdas[0] is None,
        fresh.mdas[1] is None,
        can_save(fresh, bytes.len(), BDA_STATIC_HDR_SIZE, time, data),
        after.is_saved_from(fresh, time, data),
        time.secs > 0,
        can_read_device_area(bytes, unreadable, header.mda_size),
        can_read_slot_data(
            bytes,
            unreadable,
            BDA_STATIC_HDR_SIZE,
            region_bytes_of(header.mda_size),
            0,
            data.len() as int,
        ),
    ensures
        ({
            let image = fresh.saved_image(
                initialized_image(bytes, header),
                BDA_STATIC_HDR_SIZE,
                time,
                data,
            );
            &&& load_result(image, unreadable) == Ok::<
                Option<(StaticHeader, (Option<MDAHeader>, Option<MDAHeader>))>,
                MetadataError,
            >(Some((header, (after.mdas[0], after.mdas[1]))))
            &&& after.state_on_device(image, unreadable, BDA_STATIC_HDR_SIZE) == Ok::<
                Option<Seq<u8>>,
                MetadataError,
            >(Some(data))
            &&& after.newest() == Some(time)
        }),
{
    let initialized = initialized_image(bytes, header);
    let image = fresh.saved_image(initialized, BDA_STATIC_HDR_SIZE, time, data);
    let per_region_size = region_bytes_of(header.mda_size);
    assert(per_region_size * 3 >= 0) by (nonlinear_arith);
    lemma_region_headers_keep(
        with_copies(bytes, header.sigblock(), MetadataLocation::Both),
        BDA_STATIC_HDR_SIZE,
        per_region_size,
        MDAHeader::empty().header_bytes(),
        4,
    );
    assert(initialized.len() == bytes.len());
    lemma_initialized_stream_is_owned(bytes, unreadable, header);
    lemma_initialize_then_load(bytes, unreadable, header);
    lemma_save_keeps_static_header(fresh, initialized, time, data);
    lemma_saved_image(fresh, initialized, BDA_STATIC_HDR_SIZE, time, data);
    lemma_setup_finds_header(image, unreadable, header);
    lemma_save_keeps_stream_in_step(
        fresh,
        after,
        initialized,
        unreadable,
        BDA_STATIC_HDR_SIZE,
        time,
        data,
    );
    lemma_save_then_load(fresh, after, initialized, unreadable, BDA_STATIC_HDR_SIZE, time, data);
}

} // verus!
