//! The configuration of a region: its payload size, its locks, and the
//! metadata that they need. A configuration is built before any mapping
//! exists, and travels with the region afterwards.

use vstd::prelude::*;
use std::path::PathBuf;
use crate::error::ShmemError;
use crate::layout::{push_zeros, EventHeader, LockHeader, MetaDataHeader, GLOBAL_HEADER_SIZE, LOCK_HEADER_SIZE};
use crate::locking::{Footprints, GenericEvent, GenericLock, LockPlacement, LockType};
use crate::model::{lemma_lock_records_len, lemma_mapped_is_placed, lemma_record_start_monotonic, lemma_record_start_prefix, spec_event_headers, spec_lock_record_start, spec_lock_records, spec_metadata_image, spec_valid_lock_range, ConfView};

verus! {

impl ConfView {
    /// Whether the metadata size still fits a `usize` once a lock of the
    /// given kind is added.
    pub open spec fn has_room(self, kind: LockType) -> bool {
        self.meta_size + LOCK_HEADER_SIZE + self.footprints.spec_size_of(kind) <= usize::MAX
    }

    /// The configuration with one more lock at the end, not placed yet, and
    /// the metadata grown by the lock's header and footprint.
    pub open spec fn with_lock(self, kind: LockType, offset: usize, length: usize) -> ConfView {
        ConfView {
            meta_size: (self.meta_size + LOCK_HEADER_SIZE + self.footprints.spec_size_of(
                kind,
            )) as usize,
            locks: self.locks.push(GenericLock { kind, offset, length, placement: None }),
            ..self
        }
    }

    /// The configuration of a fresh region of `map_size` payload bytes: no
    /// lock, no event, and the global header as its only metadata.
    pub open spec fn fresh(link_path: PathBuf, map_size: usize, footprints: Footprints) -> ConfView {
        ConfView {
            owner: false,
            link_path,
            size: map_size,
            meta_size: GLOBAL_HEADER_SIZE,
            locks: Seq::empty(),
            events: Seq::empty(),
            footprints,
        }
    }
}

/// Holds information about the mapping.
pub struct SharedMemConf {
    owner: bool,
    link_path: PathBuf,
    size: usize,
    meta_size: usize,
    lock_data: Vec<GenericLock>,
    event_data: Vec<GenericEvent>,
    footprints: Footprints,
}

impl View for SharedMemConf {
    type V = ConfView;

    closed spec fn view(&self) -> ConfView {
        ConfView {
            owner: self.owner,
            link_path: self.link_path,
            size: self.size,
            meta_size: self.meta_size,
            locks: self.lock_data@,
            events: self.event_data@,
            footprints: self.footprints,
        }
    }
}

impl SharedMemConf {
    #[verifier::type_invariant]
    closed spec fn inv(&self) -> bool {
        self@.wf()
    }

    /// Says whether `length` bytes from `offset` on form a lock range inside
    /// a payload of `map_size` bytes.
    pub fn valid_lock_range(map_size: usize, offset: usize, length: usize) -> (valid: bool)
        ensures
            valid == spec_valid_lock_range(map_size as int, offset as int, length as int),
    {
        offset < map_size && length <= map_size - offset
    }

    /// Returns a configuration for a region of `map_size` payload bytes,
    /// with this platform's lock footprints.
    pub fn new(new_link_path: PathBuf, map_size: usize) -> (conf: SharedMemConf)
        ensures
            conf@ == ConfView::fresh(new_link_path, map_size, conf@.footprints),
            conf@.wf(),
    {
        SharedMemConf::with_footprints(new_link_path, map_size, Footprints::native())
    }

    /// Returns a configuration for a region of `map_size` payload bytes,
    /// whose locks take the given footprints.
    pub fn with_footprints(new_link_path: PathBuf, map_size: usize, footprints: Footprints) -> (conf:
        SharedMemConf)
        ensures
            conf@ == ConfView::fresh(new_link_path, map_size, footprints),
            conf@.wf(),
    {
        SharedMemConf {
            owner: false,
            link_path: new_link_path,
            size: map_size,
            meta_size: GLOBAL_HEADER_SIZE,
            lock_data: Vec::new(),
            event_data: Vec::new(),
            footprints,
        }
    }

    /// Says whether a lock of the given kind can still be added without the
    /// metadata size leaving the range of `usize`.
    pub fn has_room(&self, lock_type: LockType) -> (room: bool)
        ensures
            room == self@.has_room(lock_type),
    {
        let footprint = self.footprints.size_of(lock_type);
        self.meta_size <= usize::MAX - LOCK_HEADER_SIZE && footprint <= usize::MAX
            - LOCK_HEADER_SIZE - self.meta_size
    }

    /// Adds a lock of the given kind over `length` payload bytes from
    /// `offset` on. A range that does not lie inside the payload is refused
    /// with `InvalidRange`. Ranges may overlap those of other locks.
    pub fn add_lock(self, lock_type: LockType, offset: usize, length: usize) -> (result: Result<
        SharedMemConf,
        ShmemError,
    >)
        requires
            spec_valid_lock_range(self@.size as int, offset as int, length as int)
                ==> self@.has_room(lock_type),
        ensures
            match result {
                Ok(conf) => {
                    &&& spec_valid_lock_range(self@.size as int, offset as int, length as int)
                    &&& conf@ == self@.with_lock(lock_type, offset, length)
                    &&& conf@.wf()
                },
                Err(e) => {
                    &&& !spec_valid_lock_range(self@.size as int, offset as int, length as int)
                    &&& e == ShmemError::InvalidRange
                },
            },
    {
        proof {
            use_type_invariant(&self);
        }
        if !SharedMemConf::valid_lock_range(self.size, offset, length) {
            return Err(ShmemError::InvalidRange);
        }
        let ghost before = self@;
        let SharedMemConf { owner, link_path, size, meta_size, lock_data, event_data, footprints } =
            self;
        let mut lock_data = lock_data;
        let new_lock = GenericLock { kind: lock_type, offset, length, placement: None };
        lock_data.push(new_lock);
        proof {
            lemma_record_start_prefix(
                before.locks,
                lock_data@,
                footprints,
                before.locks.len(),
            );
        }
        Ok(
            SharedMemConf {
                owner,
                link_path,
                size,
                meta_size: meta_size + LOCK_HEADER_SIZE + footprints.size_of(lock_type),
                lock_data,
                event_data,
                footprints,
            },
        )
    }

    /// Returns the number of payload bytes.
    pub fn get_user_size(&self) -> (size: &usize)
        ensures
            *size == self@.size,
    {
        &self.size
    }

    /// Returns the number of metadata bytes in front of the payload.
    pub fn get_metadata_size(&self) -> (size: &usize)
        ensures
            *size == self@.meta_size,
    {
        &self.meta_size
    }

    /// Returns the path of the link file.
    pub fn get_link_path(&self) -> (path: &PathBuf)
        ensures
            *path == self@.link_path,
    {
        &self.link_path
    }

    /// Says whether the holder must remove the link file when it is done.
    pub fn is_owner(&self) -> (owner: bool)
        ensures
            owner == self@.owner,
    {
        self.owner
    }

    /// Returns the footprints that the metadata size is computed with.
    pub fn get_footprints(&self) -> (footprints: Footprints)
        ensures
            footprints == self@.footprints,
    {
        self.footprints
    }

    /// Returns the number of locks.
    pub fn num_locks(&self) -> (count: usize)
        ensures
            count == self@.locks.len(),
    {
        self.lock_data.len()
    }

    /// Returns the number of events.
    pub fn num_events(&self) -> (count: usize)
        ensures
            count == self@.events.len(),
    {
        self.event_data.len()
    }

    /// Returns the lock at `index`, if there is one.
    pub fn get_lock(&self, index: usize) -> (lock: Option<GenericLock>)
        ensures
            lock == if index < self@.locks.len() {
                Some(self@.locks[index as int])
            } else {
                None
            },
    {
        if index < self.lock_data.len() {
            Some(self.lock_data[index])
        } else {
            None
        }
    }

    /// Writes the metadata block of a region of this shape: the global
    /// header, then each lock's header followed by zeroed room for its
    /// primitive, then the event headers.
    pub fn metadata_image(&self) -> (image: Vec<u8>)
        ensures
            image@ == spec_metadata_image(self@),
            image@.len() == self@.meta_size,
    {
        proof {
            use_type_invariant(self);
        }
        let header = MetaDataHeader {
            meta_size: self.meta_size as u64,
            user_size: self.size as u64,
            num_locks: self.lock_data.len() as u64,
            num_events: self.event_data.len() as u64,
        };
        let mut image: Vec<u8> = Vec::new();
        header.write(&mut image);
        let mut i: usize = 0;
        while i < self.lock_data.len()
            invariant
                i <= self.lock_data.len(),
                image@ == header.spec_to_bytes() + spec_lock_records(
                    self.lock_data@,
                    self.footprints,
                    i as nat,
                ),
            decreases self.lock_data.len() - i,
        {
            let lock = self.lock_data[i];
            let lock_header = LockHeader {
                uid: lock.kind.uid(),
                offset: lock.offset as u64,
                length: lock.length as u64,
            };
            lock_header.write(&mut image);
            push_zeros(&mut image, self.footprints.size_of(lock.kind));
            i = i + 1;
        }
        let ghost records = image@;
        let mut j: usize = 0;
        while j < self.event_data.len()
            invariant
                j <= self.event_data.len(),
                image@ == records + spec_event_headers(self.event_data@).subrange(0, j as int),
            decreases self.event_data.len() - j,
        {
            let event_header = EventHeader { event_id: self.event_data[j].uid };
            event_header.write(&mut image);
            j = j + 1;
        }
        proof {
            assert(spec_event_headers(self.event_data@).subrange(0, j as int)
                == spec_event_headers(self.event_data@));
            lemma_lock_records_len(self.lock_data@, self.footprints, self.lock_data@.len());
        }
        image
    }

    /// Places every lock and sets the owner flag: what becomes of a
    /// configuration when its region is mapped.
    pub(crate) fn into_mapped(self, owner: bool) -> (conf: SharedMemConf)
        requires
            self@.region_size() <= usize::MAX,
        ensures
            conf@ == self@.mapped(owner),
            conf@.wf(),
            conf@.placed(),
    {
        proof {
            use_type_invariant(&self);
            lemma_mapped_is_placed(self@, owner);
        }
        let ghost before = self@;
        let SharedMemConf { owner: _, link_path, size, meta_size, lock_data, event_data, footprints } =
            self;
        let mut placed: Vec<GenericLock> = Vec::new();
        let mut cursor: usize = GLOBAL_HEADER_SIZE;
        let mut i: usize = 0;
        while i < lock_data.len()
            invariant
                i <= lock_data.len(),
                before.wf(),
                before.locks == lock_data@,
                before.footprints == footprints,
                before.meta_size == meta_size,
                before.size == size,
                before.region_size() <= usize::MAX,
                cursor == spec_lock_record_start(lock_data@, footprints, i as nat),
                placed@ == before.placed_locks().subrange(0, i as int),
            decreases lock_data.len() - i,
        {
            let lock = lock_data[i];
            proof {
                lemma_record_start_monotonic(
                    lock_data@,
                    footprints,
                    (i + 1) as nat,
                    lock_data@.len(),
                );
            }
            let primitive = cursor + LOCK_HEADER_SIZE;
            placed.push(
                GenericLock {
                    kind: lock.kind,
                    offset: lock.offset,
                    length: lock.length,
                    placement: Some(
                        LockPlacement {
                            primitive_offset: primitive,
                            data_offset: meta_size + lock.offset,
                        },
                    ),
                },
            );
            cursor = primitive + footprints.size_of(lock.kind);
            i = i + 1;
        }
        assert(placed@ == before.placed_locks());
        SharedMemConf { owner, link_path, size, meta_size, lock_data: placed, event_data, footprints }
    }

    /// Puts a configuration together from the parts that were read out of
    /// a region.
    pub(crate) fn from_parts(
        link_path: PathBuf,
        size: usize,
        meta_size: usize,
        lock_data: Vec<GenericLock>,
        event_data: Vec<GenericEvent>,
        footprints: Footprints,
    ) -> (conf: SharedMemConf)
        requires
            (ConfView {
                owner: false,
                link_path,
                size,
                meta_size,
                locks: lock_data@,
                events: event_data@,
                footprints,
            }).wf(),
        ensures
            conf@ == (ConfView {
                owner: false,
                link_path,
                size,
                meta_size,
                locks: lock_data@,
                events: event_data@,
                footprints,
            }),
    {
        SharedMemConf { owner: false, link_path, size, meta_size, lock_data, event_data, footprints }
    }

    /// Returns the number of bytes of the whole region, metadata and
    /// payload, or `None` where that number does not fit a `usize`.
    pub fn region_size(&self) -> (total: Option<usize>)
        ensures
            total == if self@.region_size() <= usize::MAX {
                Some(self@.region_size() as usize)
            } else {
                None
            },
    {
        self.meta_size.checked_add(self.size)
    }
}

} // verus!
