//! The mathematical model of a region: what a configuration is, where its
//! records lie, which bytes describe it, and what those bytes are read back
//! as.

use vstd::prelude::*;
use crate::error::{ShmemError, Shortfall};
use crate::layout::{spec_zeros, EventHeader, LockHeader, MetaDataHeader, EVENT_HEADER_SIZE, GLOBAL_HEADER_SIZE, LOCK_HEADER_SIZE};
use crate::locking::{spec_lock_uid_to_type, Footprints, GenericEvent, GenericLock, LockPlacement};

verus! {

/// `std::path::PathBuf`, which the library stores and hands back without
/// ever looking inside it.
#[verifier::external_type_specification]
#[verifier::external_body]
pub struct ExPathBuf(std::path::PathBuf);

/// Whether `length` bytes from `offset` on form a lock range inside a
/// payload of `map_size` bytes. The range must begin inside the payload: an
/// empty range at its very end is no range.
pub open spec fn spec_valid_lock_range(map_size: int, offset: int, length: int) -> bool {
    offset < map_size && offset + length <= map_size
}

/// The offset at which the record of lock `index` begins. For `index`
/// equal to the number of locks, the offset at which the lock records end.
pub open spec fn spec_lock_record_start(locks: Seq<GenericLock>, footprints: Footprints, index: nat) -> int
    decreases index,
{
    if index == 0 {
        GLOBAL_HEADER_SIZE as int
    } else {
        spec_lock_record_start(locks, footprints, (index - 1) as nat) + LOCK_HEADER_SIZE
            + footprints.spec_size_of(locks[index - 1].kind)
    }
}

/// The bytes of metadata that the given locks and events need: the global
/// header, each lock's header and primitive, and each event's header.
pub open spec fn spec_metadata_size(
    locks: Seq<GenericLock>,
    events: Seq<GenericEvent>,
    footprints: Footprints,
) -> int {
    spec_lock_record_start(locks, footprints, locks.len()) + events.len() * EVENT_HEADER_SIZE
}

/// Where lock `index` lives in a region whose payload starts at
/// `meta_size`: its primitive right behind its header, its data at its
/// offset into the payload.
pub open spec fn spec_placement(
    locks: Seq<GenericLock>,
    footprints: Footprints,
    meta_size: int,
    index: int,
) -> LockPlacement {
    LockPlacement {
        primitive_offset: (spec_lock_record_start(locks, footprints, index as nat)
            + LOCK_HEADER_SIZE) as usize,
        data_offset: (meta_size + locks[index].offset) as usize,
    }
}

/// What a configuration holds.
pub struct ConfView {
    /// Whether the holder must remove the link file when it is done.
    pub owner: bool,
    /// The path of the link file.
    pub link_path: std::path::PathBuf,
    /// Bytes of payload.
    pub size: usize,
    /// Bytes of metadata in front of the payload.
    pub meta_size: usize,
    /// The locks, in the order in which they were added.
    pub locks: Seq<GenericLock>,
    /// The events, in the order in which they were added.
    pub events: Seq<GenericEvent>,
    /// The footprints that the metadata size was computed with.
    pub footprints: Footprints,
}

impl ConfView {
    /// The invariant of every configuration: the metadata size is the one
    /// that the locks and events need, and every lock range lies inside the
    /// payload.
    pub open spec fn wf(self) -> bool {
        &&& self.meta_size == spec_metadata_size(self.locks, self.events, self.footprints)
        &&& forall|i: int|
            0 <= i < self.locks.len() ==> spec_valid_lock_range(
                self.size as int,
                (#[trigger] self.locks[i]).offset as int,
                self.locks[i].length as int,
            )
    }

    /// No lock has been placed yet.
    pub open spec fn unplaced(self) -> bool {
        forall|i: int| 0 <= i < self.locks.len() ==> (#[trigger] self.locks[i]).placement.is_none()
    }

    /// Every lock sits where the layout puts it.
    pub open spec fn placed(self) -> bool {
        forall|i: int|
            0 <= i < self.locks.len() ==> self.locks[i].placement == Some(
                #[trigger] spec_placement(self.locks, self.footprints, self.meta_size as int, i),
            )
    }

    /// The locks, each moved to where the layout puts it.
    pub open spec fn placed_locks(self) -> Seq<GenericLock> {
        Seq::new(
            self.locks.len(),
            |i: int|
                GenericLock {
                    placement: Some(
                        spec_placement(self.locks, self.footprints, self.meta_size as int, i),
                    ),
                    ..self.locks[i]
                },
        )
    }

    /// The configuration as it is once its region is mapped: every lock
    /// placed, and `owner` as given.
    pub open spec fn mapped(self, owner: bool) -> ConfView {
        ConfView { owner, locks: self.placed_locks(), ..self }
    }

    /// The total number of bytes of a region of this shape.
    pub open spec fn region_size(self) -> int {
        self.meta_size + self.size
    }

    /// The global header of a region of this shape.
    pub open spec fn global_header(self) -> MetaDataHeader {
        MetaDataHeader {
            meta_size: self.meta_size as u64,
            user_size: self.size as u64,
            num_locks: self.locks.len() as u64,
            num_events: self.events.len() as u64,
        }
    }
}

/// The header written in front of a lock's primitive.
pub open spec fn spec_lock_header(lock: GenericLock) -> LockHeader {
    LockHeader { uid: lock.kind.spec_uid(), offset: lock.offset as u64, length: lock.length as u64 }
}

/// The record of one lock: its header, then room for its primitive, zeroed.
pub open spec fn spec_lock_record(lock: GenericLock, footprints: Footprints) -> Seq<u8> {
    spec_lock_header(lock).spec_to_bytes() + spec_zeros(footprints.spec_size_of(lock.kind) as nat)
}

/// The records of the first `count` locks, one after the other.
pub open spec fn spec_lock_records(locks: Seq<GenericLock>, footprints: Footprints, count: nat) -> Seq<u8>
    decreases count,
{
    if count == 0 {
        Seq::empty()
    } else {
        spec_lock_records(locks, footprints, (count - 1) as nat) + spec_lock_record(
            locks[count - 1],
            footprints,
        )
    }
}

/// The headers of the events, one byte each.
pub open spec fn spec_event_headers(events: Seq<GenericEvent>) -> Seq<u8> {
    Seq::new(events.len(), |i: int| events[i].uid)
}

/// The metadata block of a region of the given shape, as it is written
/// when the region is created.
pub open spec fn spec_metadata_image(conf: ConfView) -> Seq<u8> {
    conf.global_header().spec_to_bytes() + spec_lock_records(
        conf.locks,
        conf.footprints,
        conf.locks.len(),
    ) + spec_event_headers(conf.events)
}

/// Whether the header of each lock of `conf` lies in `region` where the
/// layout puts it, and holds the lock's kind and range.
pub open spec fn spec_describes_locks(region: Seq<u8>, conf: ConfView) -> bool {
    forall|i: int|
        0 <= i < conf.locks.len() ==> LockHeader::spec_read(
            region,
            #[trigger] spec_lock_record_start(conf.locks, conf.footprints, i as nat),
        ) == spec_lock_header(conf.locks[i])
}

/// Whether the headers in `region` describe the shape `conf`: the global
/// header holds its sizes and counts, the lock headers hold its locks, and
/// the event headers hold the events' tags. Primitive bytes, padding and
/// payload are free.
pub open spec fn spec_describes(region: Seq<u8>, conf: ConfView) -> bool {
    &&& MetaDataHeader::spec_read(region) == conf.global_header()
    &&& spec_describes_locks(region, conf)
    &&& forall|j: int|
        0 <= j < conf.events.len() ==> #[trigger] region[spec_lock_record_start(
            conf.locks,
            conf.footprints,
            conf.locks.len(),
        ) + j] == conf.events[j].uid
}

/// What the headers of a region are read back as.
pub struct RegionLayout {
    /// Bytes of payload.
    pub size: usize,
    /// Bytes of metadata in front of the payload.
    pub meta_size: usize,
    /// The locks, each placed relative to the start of the mapping.
    pub locks: Seq<GenericLock>,
    /// The events.
    pub events: Seq<GenericEvent>,
}

/// Reads the lock record that starts at `cursor`. The header must end, and
/// then the primitive must end, no later than the payload starts at
/// `user_start`; the tag must name a kind; the range must lie inside the
/// payload of `user_size` bytes.
pub open spec fn spec_read_lock(
    region: Seq<u8>,
    footprints: Footprints,
    user_size: int,
    user_start: int,
    cursor: int,
) -> Result<GenericLock, ShmemError> {
    let primitive = cursor + LOCK_HEADER_SIZE;
    if primitive > user_start {
        Err(ShmemError::CorruptMetadata)
    } else {
        let header = LockHeader::spec_read(region, cursor);
        match spec_lock_uid_to_type(header.uid) {
            None => Err(ShmemError::UnknownLockKind),
            Some(kind) => {
                if !spec_valid_lock_range(user_size, header.offset as int, header.length as int) {
                    Err(ShmemError::InvalidRange)
                } else if primitive + footprints.spec_size_of(kind) > user_start {
                    Err(ShmemError::CorruptMetadata)
                } else {
                    Ok(
                        GenericLock {
                            kind,
                            offset: header.offset as usize,
                            length: header.length as usize,
                            placement: Some(
                                LockPlacement {
                                    primitive_offset: primitive as usize,
                                    data_offset: (user_start + header.offset) as usize,
                                },
                            ),
                        },
                    )
                }
            },
        }
    }
}

/// The offset right behind the record of `lock`, when the record starts at
/// `cursor`.
pub open spec fn spec_lock_record_end(cursor: int, lock: GenericLock, footprints: Footprints) -> int {
    cursor + LOCK_HEADER_SIZE + footprints.spec_size_of(lock.kind)
}

/// Reads `count` lock records, the first of which starts at `cursor`, and
/// gives the locks together with the offset behind the last record. The
/// first record that cannot be read decides the error.
pub open spec fn spec_read_locks(
    region: Seq<u8>,
    footprints: Footprints,
    user_size: int,
    user_start: int,
    cursor: int,
    count: nat,
) -> Result<(Seq<GenericLock>, int), ShmemError>
    decreases count,
{
    if count == 0 {
        Ok((Seq::empty(), cursor))
    } else {
        match spec_read_lock(region, footprints, user_size, user_start, cursor) {
            Err(e) => Err(e),
            Ok(lock) => match spec_read_locks(
                region,
                footprints,
                user_size,
                user_start,
                spec_lock_record_end(cursor, lock, footprints),
                (count - 1) as nat,
            ) {
                Err(e) => Err(e),
                Ok((rest, end)) => Ok((seq![lock] + rest, end)),
            },
        }
    }
}

/// The `count` events whose headers start at `cursor`.
pub open spec fn spec_read_events(region: Seq<u8>, cursor: int, count: nat) -> Seq<GenericEvent> {
    Seq::new(count, |j: int| GenericEvent { uid: EventHeader::spec_read(region, cursor + j).event_id })
}

/// Reads what is left of the headers from `cursor` on: `locks_left` lock
/// records, then `num_events` event headers, which must end exactly where
/// the payload starts. `locks` are the locks read so far.
pub open spec fn spec_read_rest(
    region: Seq<u8>,
    footprints: Footprints,
    user_size: int,
    user_start: int,
    cursor: int,
    locks_left: nat,
    num_events: nat,
    locks: Seq<GenericLock>,
) -> Result<RegionLayout, ShmemError> {
    match spec_read_locks(region, footprints, user_size, user_start, cursor, locks_left) {
        Err(e) => Err(e),
        Ok((rest, end)) => {
            if end + num_events * EVENT_HEADER_SIZE != user_start {
                Err(ShmemError::CorruptMetadata)
            } else {
                Ok(
                    RegionLayout {
                        size: user_size as usize,
                        meta_size: user_start as usize,
                        locks: locks + rest,
                        events: spec_read_events(region, end, num_events),
                    },
                )
            }
        },
    }
}

/// Reads the headers of a whole mapped region. The mapping must hold the
/// global header, and then the metadata and payload that the header
/// declares; the lock records and event headers must fill the metadata
/// exactly.
pub open spec fn spec_read_layout(region: Seq<u8>, footprints: Footprints) -> Result<
    RegionLayout,
    ShmemError,
> {
    if region.len() < GLOBAL_HEADER_SIZE {
        Err(ShmemError::TooSmall(Shortfall::GlobalHeader))
    } else {
        let header = MetaDataHeader::spec_read(region);
        if header.meta_size + header.user_size > region.len() {
            Err(ShmemError::TooSmall(Shortfall::DeclaredSizes))
        } else {
            spec_read_rest(
                region,
                footprints,
                header.user_size as int,
                header.meta_size as int,
                GLOBAL_HEADER_SIZE as int,
                header.num_locks as nat,
                header.num_events as nat,
                Seq::empty(),
            )
        }
    }
}

/// Lock records begin behind the global header and never move backwards.
pub proof fn lemma_record_start_monotonic(locks: Seq<GenericLock>, footprints: Footprints, i: nat, j: nat)
    requires
        i <= j,
    ensures
        GLOBAL_HEADER_SIZE <= spec_lock_record_start(locks, footprints, i),
        spec_lock_record_start(locks, footprints, i) + (j - i) * LOCK_HEADER_SIZE
            <= spec_lock_record_start(locks, footprints, j),
    decreases j,
{
    if j == 0 {
    } else if i == j {
        lemma_record_start_monotonic(locks, footprints, 0, (j - 1) as nat);
    } else {
        lemma_record_start_monotonic(locks, footprints, i, (j - 1) as nat);
    }
}

/// Where a record begins depends only on the locks in front of it.
pub proof fn lemma_record_start_prefix(
    locks: Seq<GenericLock>,
    other: Seq<GenericLock>,
    footprints: Footprints,
    index: nat,
)
    requires
        index <= locks.len(),
        index <= other.len(),
        forall|i: int| 0 <= i < index ==> locks[i].kind == other[i].kind,
    ensures
        spec_lock_record_start(locks, footprints, index) == spec_lock_record_start(
            other,
            footprints,
            index,
        ),
    decreases index,
{
    if index > 0 {
        lemma_record_start_prefix(locks, other, footprints, (index - 1) as nat);
    }
}

/// Placing the locks of a configuration keeps it well formed, and leaves
/// every lock where the layout puts it.
pub proof fn lemma_mapped_is_placed(conf: ConfView, owner: bool)
    requires
        conf.wf(),
    ensures
        conf.mapped(owner).wf(),
        conf.mapped(owner).placed(),
{
    let mapped = conf.mapped(owner);
    assert forall|i: nat| i <= conf.locks.len() implies spec_lock_record_start(
        mapped.locks,
        conf.footprints,
        i,
    ) == spec_lock_record_start(conf.locks, conf.footprints, i) by {
        lemma_record_start_prefix(mapped.locks, conf.locks, conf.footprints, i);
    }
    assert(spec_lock_record_start(mapped.locks, conf.footprints, conf.locks.len())
        == spec_lock_record_start(conf.locks, conf.footprints, conf.locks.len()));
    assert forall|i: int| 0 <= i < mapped.locks.len() implies mapped.locks[i].placement == Some(
        #[trigger] spec_placement(mapped.locks, mapped.footprints, mapped.meta_size as int, i),
    ) by {
        assert(spec_lock_record_start(mapped.locks, conf.footprints, i as nat)
            == spec_lock_record_start(conf.locks, conf.footprints, i as nat));
    }
    assert forall|i: int| 0 <= i < mapped.locks.len() implies spec_valid_lock_range(
        mapped.size as int,
        (#[trigger] mapped.locks[i]).offset as int,
        mapped.locks[i].length as int,
    ) by {
        assert(mapped.locks[i].offset == conf.locks[i].offset);
    }
}

/// The records of the first `count` locks take as many bytes as lie
/// between the global header and the end of the last of them.
pub proof fn lemma_lock_records_len(locks: Seq<GenericLock>, footprints: Footprints, count: nat)
    requires
        count <= locks.len(),
    ensures
        spec_lock_records(locks, footprints, count).len() + GLOBAL_HEADER_SIZE
            == spec_lock_record_start(locks, footprints, count),
    decreases count,
{
    if count > 0 {
        lemma_lock_records_len(locks, footprints, (count - 1) as nat);
        vstd::bytes::lemma_auto_spec_u64_to_from_le_bytes();
    }
}

} // verus!
