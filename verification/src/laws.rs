//! What holds between writing a region's headers and reading them back.

use vstd::prelude::*;
use std::path::PathBuf;
use crate::error::ShmemError;
use crate::layout::{lemma_global_header_round_trip, lemma_lock_header_round_trip, lemma_u64_bytes_determined, spec_u64_at, LockHeader, MetaDataHeader, GLOBAL_HEADER_SIZE, LOCK_HEADER_SIZE};
use crate::locking::{lemma_uid_round_trip, Footprints, GenericLock};
use crate::model::{lemma_lock_records_len, lemma_mapped_is_placed, lemma_record_start_monotonic, lemma_record_start_prefix, spec_describes, spec_describes_locks, spec_event_headers, spec_lock_header, spec_lock_record, spec_lock_record_end, spec_lock_record_start, spec_lock_records, spec_metadata_image, spec_placement, spec_read_events, spec_read_layout, spec_read_lock, spec_read_locks, ConfView, RegionLayout};
use crate::open::spec_open;
use crate::shmem::{spec_create, MapData, ShmemView};

verus! {

/// The header of lock `index` lies in the lock records at the offset that
/// the layout gives it.
proof fn lemma_records_hold_header(locks: Seq<GenericLock>, footprints: Footprints, count: nat, index: nat)
    requires
        index < count <= locks.len(),
    ensures
        spec_lock_record_start(locks, footprints, index) - GLOBAL_HEADER_SIZE + LOCK_HEADER_SIZE
            <= spec_lock_records(locks, footprints, count).len(),
        spec_lock_records(locks, footprints, count).subrange(
            spec_lock_record_start(locks, footprints, index) - GLOBAL_HEADER_SIZE,
            spec_lock_record_start(locks, footprints, index) - GLOBAL_HEADER_SIZE
                + LOCK_HEADER_SIZE,
        ) == spec_lock_header(locks[index as int]).spec_to_bytes(),
    decreases count,
{
    vstd::bytes::lemma_auto_spec_u64_to_from_le_bytes();
    let before = spec_lock_records(locks, footprints, (count - 1) as nat);
    let last = spec_lock_record(locks[count - 1], footprints);
    let at = spec_lock_record_start(locks, footprints, index) - GLOBAL_HEADER_SIZE;
    lemma_lock_records_len(locks, footprints, (count - 1) as nat);
    lemma_record_start_monotonic(locks, footprints, 0, index);
    if index == count - 1 {
        assert(at == before.len());
        assert((before + last).subrange(at, at + LOCK_HEADER_SIZE) == last.subrange(
            0,
            LOCK_HEADER_SIZE as int,
        ));
        assert(last.subrange(0, LOCK_HEADER_SIZE as int) == spec_lock_header(
            locks[index as int],
        ).spec_to_bytes());
    } else {
        lemma_records_hold_header(locks, footprints, (count - 1) as nat, index);
        assert((before + last).subrange(at, at + LOCK_HEADER_SIZE) == before.subrange(
            at,
            at + LOCK_HEADER_SIZE,
        ));
    }
}

/// A well-formed configuration has no more locks and events than its
/// metadata has bytes.
proof fn lemma_counts_fit(conf: ConfView)
    requires
        conf.wf(),
    ensures
        GLOBAL_HEADER_SIZE + conf.locks.len() * LOCK_HEADER_SIZE + conf.events.len()
            <= conf.meta_size,
        conf.global_header().num_locks == conf.locks.len(),
        conf.global_header().num_events == conf.events.len(),
        conf.global_header().meta_size == conf.meta_size,
        conf.global_header().user_size == conf.size,
{
    lemma_record_start_monotonic(conf.locks, conf.footprints, 0, conf.locks.len());
}

/// A region that begins with the metadata block of a configuration
/// describes that configuration, whatever follows the block.
pub proof fn lemma_image_describes(conf: ConfView, region: Seq<u8>)
    requires
        conf.wf(),
        conf.meta_size <= region.len(),
        region.subrange(0, conf.meta_size as int) == spec_metadata_image(conf),
    ensures
        spec_describes(region, conf),
{
    vstd::bytes::lemma_auto_spec_u64_to_from_le_bytes();
    let image = spec_metadata_image(conf);
    let global = conf.global_header().spec_to_bytes();
    let records = spec_lock_records(conf.locks, conf.footprints, conf.locks.len());
    let events = spec_event_headers(conf.events);
    lemma_lock_records_len(conf.locks, conf.footprints, conf.locks.len());
    assert(global.len() == GLOBAL_HEADER_SIZE);
    assert forall|k: int| 0 <= k < conf.meta_size implies region[k] == image[k] by {
        assert(region.subrange(0, conf.meta_size as int)[k] == region[k]);
    }
    assert(region.subrange(0, GLOBAL_HEADER_SIZE as int) == global);
    lemma_global_header_round_trip(conf.global_header(), region);
    assert forall|i: int| 0 <= i < conf.locks.len() implies LockHeader::spec_read(
        region,
        #[trigger] spec_lock_record_start(conf.locks, conf.footprints, i as nat),
    ) == spec_lock_header(conf.locks[i]) by {
        let at = spec_lock_record_start(conf.locks, conf.footprints, i as nat);
        lemma_records_hold_header(conf.locks, conf.footprints, conf.locks.len(), i as nat);
        lemma_record_start_monotonic(conf.locks, conf.footprints, 0, i as nat);
        assert(region.subrange(at, at + LOCK_HEADER_SIZE) == records.subrange(
            at - GLOBAL_HEADER_SIZE,
            at - GLOBAL_HEADER_SIZE + LOCK_HEADER_SIZE,
        ));
        lemma_lock_header_round_trip(spec_lock_header(conf.locks[i]), region, at);
    }
    assert forall|j: int| 0 <= j < conf.events.len() implies #[trigger] region[spec_lock_record_start(
        conf.locks,
        conf.footprints,
        conf.locks.len(),
    ) + j] == conf.events[j].uid by {
        let at = spec_lock_record_start(conf.locks, conf.footprints, conf.locks.len()) + j;
        assert(image[at] == events[j]);
    }
}

/// The record of lock `index` is read back as that lock, and ends where
/// the next record starts.
proof fn lemma_read_lock_recovers(region: Seq<u8>, conf: ConfView, index: nat)
    requires
        conf.wf(),
        conf.placed(),
        conf.region_size() <= usize::MAX,
        spec_describes_locks(region, conf),
        index < conf.locks.len(),
    ensures
        spec_read_lock(
            region,
            conf.footprints,
            conf.size as int,
            conf.meta_size as int,
            spec_lock_record_start(conf.locks, conf.footprints, index),
        ) == Ok::<GenericLock, ShmemError>(conf.locks[index as int]),
        spec_lock_record_end(
            spec_lock_record_start(conf.locks, conf.footprints, index),
            conf.locks[index as int],
            conf.footprints,
        ) == spec_lock_record_start(conf.locks, conf.footprints, index + 1),
{
    let cursor = spec_lock_record_start(conf.locks, conf.footprints, index);
    let lock = conf.locks[index as int];
    let header = LockHeader::spec_read(region, cursor);
    lemma_record_start_monotonic(conf.locks, conf.footprints, index + 1, conf.locks.len());
    lemma_record_start_monotonic(conf.locks, conf.footprints, 0, index);
    lemma_uid_round_trip(lock.kind);
    assert(spec_lock_record_start(conf.locks, conf.footprints, index + 1) == cursor
        + LOCK_HEADER_SIZE + conf.footprints.spec_size_of(lock.kind));
    assert(header == spec_lock_header(lock));
    assert(lock.placement == Some(
        spec_placement(conf.locks, conf.footprints, conf.meta_size as int, index as int),
    ));
    assert(header.offset == lock.offset && header.length == lock.length);
    assert(header.offset as usize == lock.offset && header.length as usize == lock.length);
}

/// Reading lock records from the start of record `from` on gives the
/// locks of the configuration that the headers describe.
proof fn lemma_read_locks_recovers(region: Seq<u8>, conf: ConfView, from: nat, count: nat)
    requires
        conf.wf(),
        conf.placed(),
        conf.region_size() <= usize::MAX,
        spec_describes_locks(region, conf),
        from + count <= conf.locks.len(),
    ensures
        spec_read_locks(
            region,
            conf.footprints,
            conf.size as int,
            conf.meta_size as int,
            spec_lock_record_start(conf.locks, conf.footprints, from),
            count,
        ) == Ok::<(Seq<GenericLock>, int), ShmemError>(
            (
                conf.locks.subrange(from as int, (from + count) as int),
                spec_lock_record_start(conf.locks, conf.footprints, from + count),
            ),
        ),
    decreases count,
{
    if count == 0 {
        assert(conf.locks.subrange(from as int, from as int) == Seq::<GenericLock>::empty());
    } else {
        let lock = conf.locks[from as int];
        lemma_read_lock_recovers(region, conf, from);
        lemma_read_locks_recovers(region, conf, from + 1, (count - 1) as nat);
        assert(seq![lock] + conf.locks.subrange((from + 1) as int, (from + count) as int)
            == conf.locks.subrange(from as int, (from + count) as int));
    }
}

/// Round trip of the layout: a mapping whose headers describe a
/// configuration with placed locks is read back as that configuration's
/// sizes, locks and events, in the same order.
pub proof fn lemma_read_layout_recovers(conf: ConfView, region: Seq<u8>)
    requires
        conf.wf(),
        conf.placed(),
        conf.region_size() <= region.len() <= usize::MAX,
        spec_describes(region, conf),
    ensures
        spec_read_layout(region, conf.footprints) == Ok::<RegionLayout, ShmemError>(
            RegionLayout {
                size: conf.size,
                meta_size: conf.meta_size,
                locks: conf.locks,
                events: conf.events,
            },
        ),
{
    lemma_counts_fit(conf);
    lemma_read_locks_recovers(region, conf, 0, conf.locks.len());
    let end = spec_lock_record_start(conf.locks, conf.footprints, conf.locks.len());
    assert(conf.locks.subrange(0, conf.locks.len() as int) == conf.locks);
    assert(Seq::<GenericLock>::empty() + conf.locks == conf.locks);
    assert(spec_read_events(region, end, conf.events.len()) == conf.events);
}

/// Round trip of a region: when a region is created and a second handle
/// opens a mapping of the same size whose headers describe what was
/// created, that handle holds the creator's sizes, locks and events, in
/// the same order, and does not own the link file.
pub proof fn lemma_open_recovers_created(
    conf: ConfView,
    os_map: MapData,
    created: ShmemView,
    region: Seq<u8>,
    link_path: PathBuf,
    link: Seq<char>,
)
    requires
        conf.wf(),
        spec_create(conf, false, Some(os_map)) == Ok::<ShmemView, ShmemError>(created),
        region.len() == os_map.map_size,
        spec_describes(region, created.conf),
    ensures
        spec_open(link_path, Some(link), Some(region), conf.footprints) == Ok::<
            ShmemView,
            ShmemError,
        >(
            ShmemView {
                conf: ConfView { owner: false, link_path, ..created.conf },
                unique_id: link,
                map_size: os_map.map_size,
            },
        ),
{
    lemma_mapped_is_placed(conf, true);
    lemma_read_layout_recovers(created.conf, region);
}

/// Placing the locks of a configuration changes nothing in what its
/// headers say.
proof fn lemma_mapped_described(region: Seq<u8>, conf: ConfView, owner: bool)
    requires
        spec_describes(region, conf),
    ensures
        spec_describes(region, conf.mapped(owner)),
{
    let mapped = conf.mapped(owner);
    assert forall|i: nat| i <= conf.locks.len() implies spec_lock_record_start(
        mapped.locks,
        conf.footprints,
        i,
    ) == spec_lock_record_start(conf.locks, conf.footprints, i) by {
        lemma_record_start_prefix(mapped.locks, conf.locks, conf.footprints, i);
    }
    assert forall|i: int| 0 <= i < mapped.locks.len() implies LockHeader::spec_read(
        region,
        #[trigger] spec_lock_record_start(mapped.locks, mapped.footprints, i as nat),
    ) == spec_lock_header(mapped.locks[i]) by {
        assert(spec_lock_record_start(mapped.locks, conf.footprints, i as nat)
            == spec_lock_record_start(conf.locks, conf.footprints, i as nat));
    }
    assert forall|j: int| 0 <= j < mapped.events.len() implies #[trigger] region[spec_lock_record_start(
        mapped.locks,
        mapped.footprints,
        mapped.locks.len(),
    ) + j] == mapped.events[j].uid by {
        assert(spec_lock_record_start(mapped.locks, conf.footprints, conf.locks.len())
            == spec_lock_record_start(conf.locks, conf.footprints, conf.locks.len()));
        assert(region[spec_lock_record_start(conf.locks, conf.footprints, conf.locks.len()) + j]
            == conf.events[j].uid);
    }
}

/// Eight bytes that are the same in two sequences hold the same integer.
proof fn lemma_u64_at_unchanged(a: Seq<u8>, b: Seq<u8>, at: int)
    requires
        0 <= at,
        at + 8 <= a.len(),
        at + 8 <= b.len(),
        forall|k: int| at <= k < at + 8 ==> a[k] == b[k],
    ensures
        spec_u64_at(a, at) == spec_u64_at(b, at),
{
    assert(a.subrange(at, at + 8) == b.subrange(at, at + 8));
}

/// Eight bytes that differ somewhere hold different integers.
proof fn lemma_u64_at_changed(a: Seq<u8>, b: Seq<u8>, at: int)
    requires
        0 <= at,
        at + 8 <= a.len(),
        at + 8 <= b.len(),
        exists|k: int| at <= k < at + 8 && a[k] != b[k],
    ensures
        spec_u64_at(a, at) != spec_u64_at(b, at),
{
    let k = choose|k: int| at <= k < at + 8 && a[k] != b[k];
    if spec_u64_at(a, at) == spec_u64_at(b, at) {
        lemma_u64_bytes_determined(a.subrange(at, at + 8), b.subrange(at, at + 8));
        assert(a.subrange(at, at + 8)[k - at] == b.subrange(at, at + 8)[k - at]);
    }
}

/// Reading `first + more` lock records is reading `first` of them and
/// `more` of them from where those end.
proof fn lemma_read_locks_split(
    region: Seq<u8>,
    footprints: Footprints,
    user_size: int,
    user_start: int,
    cursor: int,
    first: nat,
    more: nat,
)
    ensures
        spec_read_locks(region, footprints, user_size, user_start, cursor, first + more)
            == match spec_read_locks(region, footprints, user_size, user_start, cursor, first) {
            Err(e) => Err(e),
            Ok((head, middle)) => match spec_read_locks(
                region,
                footprints,
                user_size,
                user_start,
                middle,
                more,
            ) {
                Err(e) => Err(e),
                Ok((tail, end)) => Ok((head + tail, end)),
            },
        },
    decreases first,
{
    if first == 0 {
        match spec_read_locks(region, footprints, user_size, user_start, cursor, more) {
            Err(e) => {},
            Ok((tail, end)) => {
                assert(Seq::<GenericLock>::empty() + tail == tail);
            },
        }
    } else {
        match spec_read_lock(region, footprints, user_size, user_start, cursor) {
            Err(e) => {},
            Ok(lock) => {
                let next = spec_lock_record_end(cursor, lock, footprints);
                lemma_read_locks_split(
                    region,
                    footprints,
                    user_size,
                    user_start,
                    next,
                    (first - 1) as nat,
                    more,
                );
                assert((first + more - 1) as nat == (first - 1) as nat + more);
                match spec_read_locks(
                    region,
                    footprints,
                    user_size,
                    user_start,
                    next,
                    (first - 1) as nat,
                ) {
                    Err(e) => {},
                    Ok((head, middle)) => {
                        match spec_read_locks(
                            region,
                            footprints,
                            user_size,
                            user_start,
                            middle,
                            more,
                        ) {
                            Err(e) => {},
                            Ok((tail, end)) => {
                                assert(seq![lock] + (head + tail) == (seq![lock] + head) + tail);
                            },
                        }
                    },
                }
            },
        }
    }
}

/// Lock records that were read take at least a header each.
proof fn lemma_read_locks_advance(
    region: Seq<u8>,
    footprints: Footprints,
    user_size: int,
    user_start: int,
    cursor: int,
    count: nat,
)
    ensures
        spec_read_locks(region, footprints, user_size, user_start, cursor, count) matches Ok(
            (locks, end),
        ) ==> cursor + count * LOCK_HEADER_SIZE <= end,
    decreases count,
{
    if count > 0 {
        if let Ok(lock) = spec_read_lock(region, footprints, user_size, user_start, cursor) {
            lemma_read_locks_advance(
                region,
                footprints,
                user_size,
                user_start,
                spec_lock_record_end(cursor, lock, footprints),
                (count - 1) as nat,
            );
        }
    }
}

/// No silent misparse of a short mapping: when a mapping whose global
/// header declares the sizes of a configuration is cut to fewer bytes than
/// those sizes need, reading it fails with `TooSmall`.
pub proof fn lemma_shrunk_mapping_rejected(
    conf: ConfView,
    region: Seq<u8>,
    kept: nat,
    footprints: Footprints,
)
    requires
        conf.wf(),
        MetaDataHeader::spec_read(region) == conf.global_header(),
        kept <= region.len(),
        kept < conf.region_size(),
    ensures
        spec_read_layout(region.subrange(0, kept as int), footprints) matches Err(
            ShmemError::TooSmall(_),
        ),
{
    let cut = region.subrange(0, kept as int);
    lemma_counts_fit(conf);
    if kept >= GLOBAL_HEADER_SIZE {
        lemma_u64_at_unchanged(cut, region, 0);
        lemma_u64_at_unchanged(cut, region, 8);
    }
}

/// No silent misparse of a wrong lock count: when bytes of the lock count
/// in a region's global header are changed, and nothing else, reading the
/// region fails. It fails with `CorruptMetadata` where the count became
/// smaller, and where the region has fewer event headers than a lock
/// header has bytes, as every region without events has.
pub proof fn lemma_lock_count_corruption_rejected(
    conf: ConfView,
    region: Seq<u8>,
    corrupted: Seq<u8>,
)
    requires
        conf.wf(),
        conf.region_size() <= region.len() <= usize::MAX,
        spec_describes(region, conf),
        corrupted.len() == region.len(),
        forall|k: int| 0 <= k < region.len() && !(16 <= k < 24) ==> corrupted[k] == region[k],
        exists|k: int| 16 <= k < 24 && corrupted[k] != region[k],
    ensures
        spec_read_layout(corrupted, conf.footprints) is Err,
        spec_u64_at(corrupted, 16) < conf.locks.len() || conf.events.len() < LOCK_HEADER_SIZE
            ==> spec_read_layout(corrupted, conf.footprints) == Err::<RegionLayout, ShmemError>(
            ShmemError::CorruptMetadata,
        ),
{
    let footprints = conf.footprints;
    let mapped = conf.mapped(false);
    let count = conf.locks.len();
    let wrong = spec_u64_at(corrupted, 16) as nat;
    let end = spec_lock_record_start(mapped.locks, footprints, count);
    lemma_counts_fit(conf);
    lemma_mapped_is_placed(conf, false);
    lemma_mapped_described(region, conf, false);
    lemma_counts_fit(mapped);
    lemma_u64_at_unchanged(corrupted, region, 0);
    lemma_u64_at_unchanged(corrupted, region, 8);
    lemma_u64_at_unchanged(corrupted, region, 24);
    lemma_u64_at_changed(corrupted, region, 16);
    assert(wrong != count);
    assert(spec_describes_locks(corrupted, mapped)) by {
        assert forall|i: int| 0 <= i < mapped.locks.len() implies LockHeader::spec_read(
            corrupted,
            #[trigger] spec_lock_record_start(mapped.locks, mapped.footprints, i as nat),
        ) == spec_lock_header(mapped.locks[i]) by {
            let at = spec_lock_record_start(mapped.locks, mapped.footprints, i as nat);
            lemma_record_start_monotonic(mapped.locks, footprints, 0, i as nat);
            lemma_record_start_monotonic(mapped.locks, footprints, (i + 1) as nat, count);
            lemma_u64_at_unchanged(corrupted, region, at + 8);
            lemma_u64_at_unchanged(corrupted, region, at + 16);
        }
    }
    if wrong < count {
        lemma_read_locks_recovers(corrupted, mapped, 0, wrong);
        lemma_record_start_monotonic(mapped.locks, footprints, wrong, count);
    } else {
        lemma_read_locks_recovers(corrupted, mapped, 0, count);
        lemma_read_locks_split(
            corrupted,
            footprints,
            conf.size as int,
            conf.meta_size as int,
            GLOBAL_HEADER_SIZE as int,
            count,
            (wrong - count) as nat,
        );
        lemma_read_locks_advance(
            corrupted,
            footprints,
            conf.size as int,
            conf.meta_size as int,
            end,
            (wrong - count) as nat,
        );
        assert(count + (wrong - count) as nat == wrong);
    }
}

/// Teardown: a handle that opened a region never asks for the link file
/// to be removed; the handle that created it asks for that exactly when
/// the file is still there.
pub proof fn lemma_only_creator_unlinks(
    conf: ConfView,
    os_map: MapData,
    link_path: PathBuf,
    link: Option<Seq<char>>,
    region: Option<Seq<u8>>,
    footprints: Footprints,
    link_is_file: bool,
)
    ensures
        spec_open(link_path, link, region, footprints) matches Ok(opened)
            ==> !opened.unlinks_on_drop(link_is_file),
        spec_create(conf, false, Some(os_map)) matches Ok(created) ==> created.unlinks_on_drop(
            link_is_file,
        ) == link_is_file,
{
}

} // verus!
