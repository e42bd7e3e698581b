//! The open path: reading the headers of an existing region back into a
//! handle, one lock at a time.
//!
//! The bytes come from another process and are trusted for nothing. Every
//! read is preceded by a check that it stays in front of the payload, and
//! the headers must end exactly where the payload begins.

use vstd::prelude::*;
use std::path::PathBuf;
use crate::conf::SharedMemConf;
use crate::error::{ShmemError, Shortfall};
use crate::layout::{EventHeader, LockHeader, MetaDataHeader, EVENT_HEADER_SIZE, GLOBAL_HEADER_SIZE, LOCK_HEADER_SIZE};
use crate::locking::{lock_uid_to_type, Footprints, GenericEvent, GenericLock, LockPlacement};
use crate::model::{lemma_record_start_prefix, spec_lock_record_end, spec_lock_record_start, spec_placement, spec_read_events, spec_read_layout, spec_read_lock, spec_read_locks, spec_read_rest, spec_valid_lock_range, ConfView, RegionLayout};
use crate::shmem::{MapData, SharedMem, ShmemView};

verus! {

/// What a walk over the headers of a region holds.
pub struct WalkView {
    /// The path of the link file.
    pub link_path: PathBuf,
    /// The identifier read from the link file.
    pub unique_id: Seq<char>,
    /// The bytes of the mapping.
    pub region: Seq<u8>,
    /// The footprints that the region is read with.
    pub footprints: Footprints,
    /// Bytes of payload, as the global header declares them.
    pub user_size: usize,
    /// Offset of the payload, as the global header declares it.
    pub user_start: usize,
    /// Offset of the next header to read.
    pub cursor: usize,
    /// Number of lock records still to read.
    pub locks_left: u64,
    /// Number of event headers behind the lock records.
    pub num_events: u64,
    /// The locks read so far.
    pub locks: Seq<GenericLock>,
}

impl WalkView {
    /// The invariant of every walk: the declared sizes fit the mapping, the
    /// cursor stands right behind the records read so far, and every lock
    /// read so far has a range inside the payload and sits where the
    /// layout puts it.
    pub open spec fn wf(self) -> bool {
        &&& self.region.len() <= usize::MAX
        &&& self.cursor <= self.region.len()
        &&& self.user_start + self.user_size <= self.region.len()
        &&& self.cursor == spec_lock_record_start(self.locks, self.footprints, self.locks.len())
        &&& forall|i: int|
            0 <= i < self.locks.len() ==> spec_valid_lock_range(
                self.user_size as int,
                (#[trigger] self.locks[i]).offset as int,
                self.locks[i].length as int,
            )
        &&& forall|i: int|
            0 <= i < self.locks.len() ==> self.locks[i].placement == Some(
                #[trigger] spec_placement(self.locks, self.footprints, self.user_start as int, i),
            )
    }

    /// The lock record at the cursor, or why it cannot be read.
    pub open spec fn next_lock(self) -> Result<GenericLock, ShmemError> {
        spec_read_lock(
            self.region,
            self.footprints,
            self.user_size as int,
            self.user_start as int,
            self.cursor as int,
        )
    }

    /// The walk after `lock` was read at the cursor.
    pub open spec fn advanced(self, lock: GenericLock) -> WalkView {
        WalkView {
            cursor: spec_lock_record_end(self.cursor as int, lock, self.footprints) as usize,
            locks_left: (self.locks_left - 1) as u64,
            locks: self.locks.push(lock),
            ..self
        }
    }

    /// What the walk comes to once no lock record is left: the event
    /// headers must end exactly where the payload begins.
    pub open spec fn finished(self) -> Result<ShmemView, ShmemError> {
        if self.cursor + self.num_events * EVENT_HEADER_SIZE != self.user_start {
            Err(ShmemError::CorruptMetadata)
        } else {
            Ok(
                ShmemView {
                    conf: ConfView {
                        owner: false,
                        link_path: self.link_path,
                        size: self.user_size,
                        meta_size: self.user_start,
                        locks: self.locks,
                        events: spec_read_events(
                            self.region,
                            self.cursor as int,
                            self.num_events as nat,
                        ),
                        footprints: self.footprints,
                    },
                    unique_id: self.unique_id,
                    map_size: self.region.len() as usize,
                },
            )
        }
    }

    /// What the walk comes to when it is taken to its end.
    pub open spec fn outcome(self) -> Result<ShmemView, ShmemError> {
        spec_handle_of(
            self.link_path,
            self.unique_id,
            self.region,
            self.footprints,
            spec_read_rest(
                self.region,
                self.footprints,
                self.user_size as int,
                self.user_start as int,
                self.cursor as int,
                self.locks_left as nat,
                self.num_events as nat,
                self.locks,
            ),
        )
    }
}

/// The text of a link file, if there is one.
pub open spec fn spec_link_text(link: Option<String>) -> Option<Seq<char>> {
    match link {
        Some(id) => Some(id@),
        None => None,
    }
}

/// The bytes of a mapping, if there is one.
pub open spec fn spec_region_bytes(region: Option<&[u8]>) -> Option<Seq<u8>> {
    match region {
        Some(bytes) => Some(bytes@),
        None => None,
    }
}

/// The handle that an opener gets for a layout that was read from
/// `region`. It never owns the link file.
pub open spec fn spec_handle_of(
    link_path: PathBuf,
    unique_id: Seq<char>,
    region: Seq<u8>,
    footprints: Footprints,
    layout: Result<RegionLayout, ShmemError>,
) -> Result<ShmemView, ShmemError> {
    match layout {
        Err(e) => Err(e),
        Ok(l) => Ok(
            ShmemView {
                conf: ConfView {
                    owner: false,
                    link_path,
                    size: l.size,
                    meta_size: l.meta_size,
                    locks: l.locks,
                    events: l.events,
                    footprints,
                },
                unique_id,
                map_size: region.len() as usize,
            },
        ),
    }
}

/// Where a walk starts. `link` is what the link file holds, `None` where
/// there is no such file; `region` is the mapping that the operating system
/// attached for it, `None` where it could not. The mapping must hold the
/// global header, and the metadata and payload that the header declares.
pub open spec fn spec_begin(
    link_path: PathBuf,
    link: Option<Seq<char>>,
    region: Option<Seq<u8>>,
    footprints: Footprints,
) -> Result<WalkView, ShmemError> {
    match link {
        None => Err(ShmemError::NotFound),
        Some(unique_id) => match region {
            None => Err(ShmemError::MappingError),
            Some(bytes) => {
                let header = MetaDataHeader::spec_read(bytes);
                if bytes.len() < GLOBAL_HEADER_SIZE {
                    Err(ShmemError::TooSmall(Shortfall::GlobalHeader))
                } else if header.meta_size + header.user_size > bytes.len() {
                    Err(ShmemError::TooSmall(Shortfall::DeclaredSizes))
                } else {
                    Ok(
                        WalkView {
                            link_path,
                            unique_id,
                            region: bytes,
                            footprints,
                            user_size: header.user_size as usize,
                            user_start: header.meta_size as usize,
                            cursor: GLOBAL_HEADER_SIZE,
                            locks_left: header.num_locks,
                            num_events: header.num_events,
                            locks: Seq::empty(),
                        },
                    )
                }
            },
        },
    }
}

/// What opening a region comes to: the link file must exist, the mapping
/// must have been attached, and its headers must read back as a layout.
pub open spec fn spec_open(
    link_path: PathBuf,
    link: Option<Seq<char>>,
    region: Option<Seq<u8>>,
    footprints: Footprints,
) -> Result<ShmemView, ShmemError> {
    match link {
        None => Err(ShmemError::NotFound),
        Some(unique_id) => match region {
            None => Err(ShmemError::MappingError),
            Some(bytes) => spec_handle_of(
                link_path,
                unique_id,
                bytes,
                footprints,
                spec_read_layout(bytes, footprints),
            ),
        },
    }
}

/// Taking a walk from its start to its end is opening the region.
pub proof fn lemma_begin_outcome(
    link_path: PathBuf,
    link: Option<Seq<char>>,
    region: Option<Seq<u8>>,
    footprints: Footprints,
)
    requires
        region matches Some(bytes) ==> bytes.len() <= usize::MAX,
    ensures
        spec_open(link_path, link, region, footprints) == match spec_begin(
            link_path,
            link,
            region,
            footprints,
        ) {
            Err(e) => Err(e),
            Ok(walk) => walk.outcome(),
        },
{
    if let Ok(walk) = spec_begin(link_path, link, region, footprints) {
        match spec_read_locks(
            walk.region,
            footprints,
            walk.user_size as int,
            walk.user_start as int,
            walk.cursor as int,
            walk.locks_left as nat,
        ) {
            Err(e) => {},
            Ok((rest, end)) => {
                assert(Seq::<GenericLock>::empty() + rest == rest);
            },
        }
    }
}

/// A walk comes to what its next step comes to: the error of the lock
/// record at the cursor, or the outcome of the walk behind that record, or,
/// with no lock record left, the handle.
pub proof fn lemma_outcome_unfolds(walk: WalkView)
    requires
        walk.wf(),
    ensures
        walk.outcome() == if walk.locks_left > 0 {
            match walk.next_lock() {
                Err(e) => Err(e),
                Ok(lock) => walk.advanced(lock).outcome(),
            }
        } else {
            walk.finished()
        },
{
    if walk.locks_left > 0 {
        match walk.next_lock() {
            Err(e) => {},
            Ok(lock) => {
                let after = walk.advanced(lock);
                assert(after.cursor == spec_lock_record_end(
                    walk.cursor as int,
                    lock,
                    walk.footprints,
                ));
                match spec_read_locks(
                    walk.region,
                    walk.footprints,
                    walk.user_size as int,
                    walk.user_start as int,
                    after.cursor as int,
                    after.locks_left as nat,
                ) {
                    Err(e) => {},
                    Ok((rest, end)) => {
                        assert(walk.locks + (seq![lock] + rest) == walk.locks.push(lock) + rest);
                    },
                }
            },
        }
    } else {
        assert(walk.locks + Seq::<GenericLock>::empty() == walk.locks);
    }
}

/// Reading a lock record keeps a walk well formed.
pub proof fn lemma_advanced_wf(walk: WalkView, lock: GenericLock)
    requires
        walk.wf(),
        walk.locks_left > 0,
        walk.next_lock() == Ok::<GenericLock, ShmemError>(lock),
    ensures
        walk.advanced(lock).wf(),
{
    let after = walk.advanced(lock);
    assert forall|i: nat| i <= walk.locks.len() implies spec_lock_record_start(
        after.locks,
        walk.footprints,
        i,
    ) == spec_lock_record_start(walk.locks, walk.footprints, i) by {
        lemma_record_start_prefix(after.locks, walk.locks, walk.footprints, i);
    }
    assert(spec_lock_record_start(after.locks, walk.footprints, walk.locks.len())
        == walk.cursor);
    assert forall|i: int| 0 <= i < after.locks.len() implies after.locks[i].placement == Some(
        #[trigger] spec_placement(after.locks, after.footprints, after.user_start as int, i),
    ) by {
        assert(spec_lock_record_start(after.locks, walk.footprints, i as nat)
            == spec_lock_record_start(walk.locks, walk.footprints, i as nat));
        if i < walk.locks.len() {
            assert(after.locks[i] == walk.locks[i]);
            assert(walk.locks[i].placement == Some(
                spec_placement(walk.locks, walk.footprints, walk.user_start as int, i),
            ));
        }
    }
}

/// A walk over the headers of a region that is being opened.
///
/// The walk reads one lock record per step and hands the lock out, so that
/// its primitive can be attached before the next record is looked at.
pub struct OpenWalk<'a> {
    link_path: PathBuf,
    unique_id: String,
    region: &'a [u8],
    footprints: Footprints,
    user_size: usize,
    user_start: usize,
    cursor: usize,
    locks_left: u64,
    num_events: u64,
    locks: Vec<GenericLock>,
}

impl<'a> View for OpenWalk<'a> {
    type V = WalkView;

    closed spec fn view(&self) -> WalkView {
        WalkView {
            link_path: self.link_path,
            unique_id: self.unique_id@,
            region: self.region@,
            footprints: self.footprints,
            user_size: self.user_size,
            user_start: self.user_start,
            cursor: self.cursor,
            locks_left: self.locks_left,
            num_events: self.num_events,
            locks: self.locks@,
        }
    }
}

/// A lock that was just read, waiting for its primitive to be attached
/// before the walk goes on.
pub struct LockAttach<'a> {
    walk: OpenWalk<'a>,
    lock: GenericLock,
}

impl<'a> View for LockAttach<'a> {
    type V = (WalkView, GenericLock);

    closed spec fn view(&self) -> (WalkView, GenericLock) {
        (self.walk@, self.lock)
    }
}

impl<'a> LockAttach<'a> {
    /// Returns the lock whose primitive is to be attached.
    pub fn lock(&self) -> (lock: GenericLock)
        ensures
            lock == self@.1,
    {
        self.lock
    }

    /// Goes on with the walk. `attached` says whether the primitive of the
    /// lock could be attached. Where it could not, the walk ends with
    /// `InitError`.
    pub fn resume(self, attached: bool) -> (result: Result<OpenWalk<'a>, ShmemError>)
        ensures
            match result {
                Ok(walk) => attached && walk@ == self@.0,
                Err(e) => !attached && e == ShmemError::InitError,
            },
    {
        if attached {
            Ok(self.walk)
        } else {
            Err(ShmemError::InitError)
        }
    }
}

/// What a step of a walk yields.
pub enum OpenStep<'a> {
    /// A lock was read. Its primitive is to be attached, then the walk goes
    /// on.
    Attach(LockAttach<'a>),
    /// The headers are read: here is the handle.
    Done(SharedMem),
}

impl<'a> OpenWalk<'a> {
    #[verifier::type_invariant]
    closed spec fn inv(&self) -> bool {
        self@.wf()
    }

    /// Starts a walk over `region`, read with the given footprints. `link`
    /// is what the link file holds, `None` where there is no such file;
    /// `region` is the mapping that the operating system attached for it,
    /// `None` where it could not.
    pub fn begin(
        existing_link_path: PathBuf,
        link: Option<String>,
        region: Option<&'a [u8]>,
        footprints: Footprints,
    ) -> (result: Result<OpenWalk<'a>, ShmemError>)
        ensures
            match spec_begin(
                existing_link_path,
                spec_link_text(link),
                spec_region_bytes(region),
                footprints,
            ) {
                Ok(view) => result is Ok && result->Ok_0@ == view && view.wf(),
                Err(e) => result is Err && result->Err_0 == e,
            },
    {
        let unique_id = match link {
            Some(id) => id,
            None => {
                return Err(ShmemError::NotFound);
            },
        };
        let bytes = match region {
            Some(bytes) => bytes,
            None => {
                return Err(ShmemError::MappingError);
            },
        };
        let map_size = bytes.len();
        if map_size < GLOBAL_HEADER_SIZE {
            return Err(ShmemError::TooSmall(Shortfall::GlobalHeader));
        }
        let header = MetaDataHeader::read(bytes);
        if header.meta_size > map_size as u64 || header.user_size > map_size as u64
            - header.meta_size {
            return Err(ShmemError::TooSmall(Shortfall::DeclaredSizes));
        }
        Ok(
            OpenWalk {
                link_path: existing_link_path,
                unique_id,
                region: bytes,
                footprints,
                user_size: header.user_size as usize,
                user_start: header.meta_size as usize,
                cursor: GLOBAL_HEADER_SIZE,
                locks_left: header.num_locks,
                num_events: header.num_events,
                locks: Vec::new(),
            },
        )
    }

    /// Takes one step: reads the lock record at the cursor and hands the
    /// lock out with the walk behind it, or, with no lock record left,
    /// reads the event headers and hands out the handle. The first header
    /// that cannot be read ends the walk with its error.
    pub fn next(self) -> (result: Result<OpenStep<'a>, ShmemError>)
        ensures
            self@.wf(),
            self@.locks_left > 0 ==> match self@.next_lock() {
                Ok(lock) => result matches Ok(OpenStep::Attach(pending)) && pending@ == (
                    self@.advanced(lock),
                    lock,
                ) && self@.advanced(lock).wf(),
                Err(e) => result is Err && result->Err_0 == e,
            },
            self@.locks_left == 0 ==> match self@.finished() {
                Ok(view) => result matches Ok(OpenStep::Done(shmem)) && shmem@ == view
                    && view.wf(),
                Err(e) => result is Err && result->Err_0 == e,
            },
    {
        proof {
            use_type_invariant(&self);
        }
        let ghost before = self@;
        let OpenWalk {
            link_path,
            unique_id,
            region,
            footprints,
            user_size,
            user_start,
            cursor,
            locks_left,
            num_events,
            locks,
        } = self;
        assert(region@.len() == region.len());
        if locks_left > 0 {
            if cursor > user_start || user_start - cursor < LOCK_HEADER_SIZE {
                return Err(ShmemError::CorruptMetadata);
            }
            let header = LockHeader::read(region, cursor);
            let primitive = cursor + LOCK_HEADER_SIZE;
            let kind = match lock_uid_to_type(&header.uid) {
                Ok(kind) => kind,
                Err(e) => {
                    return Err(e);
                },
            };
            if header.offset >= user_size as u64 || header.length > user_size as u64
                - header.offset {
                return Err(ShmemError::InvalidRange);
            }
            let footprint = footprints.size_of(kind);
            if user_start - primitive < footprint {
                return Err(ShmemError::CorruptMetadata);
            }
            let lock = GenericLock {
                kind,
                offset: header.offset as usize,
                length: header.length as usize,
                placement: Some(
                    LockPlacement {
                        primitive_offset: primitive,
                        data_offset: user_start + header.offset as usize,
                    },
                ),
            };
            let mut locks = locks;
            locks.push(lock);
            proof {
                lemma_advanced_wf(before, lock);
            }
            let walk = OpenWalk {
                link_path,
                unique_id,
                region,
                footprints,
                user_size,
                user_start,
                cursor: primitive + footprint,
                locks_left: locks_left - 1,
                num_events,
                locks,
            };
            Ok(OpenStep::Attach(LockAttach { walk, lock }))
        } else {
            if cursor > user_start || (user_start - cursor) as u64 != num_events {
                return Err(ShmemError::CorruptMetadata);
            }
            let mut events: Vec<GenericEvent> = Vec::new();
            let mut at: usize = cursor;
            while at < user_start
                invariant
                    cursor <= at <= user_start,
                    user_start <= region@.len(),
                    events@ == spec_read_events(region@, cursor as int, (at - cursor) as nat),
                decreases user_start - at,
            {
                let header = EventHeader::read(region, at);
                events.push(GenericEvent { uid: header.event_id });
                at = at + EVENT_HEADER_SIZE;
            }
            let conf = SharedMemConf::from_parts(
                link_path,
                user_size,
                user_start,
                locks,
                events,
                footprints,
            );
            Ok(
                OpenStep::Done(
                    SharedMem::from_parts(conf, MapData { unique_id, map_size: region.len() }),
                ),
            )
        }
    }
}

impl SharedMem {
    /// Opens the region behind a link file, reading it with the given
    /// footprints. `link` is what the link file holds, `None` where there
    /// is no such file; `region` is the mapping that the operating system
    /// attached for it, `None` where it could not. The handle that comes
    /// back does not own the link file. No primitive is attached on the
    /// way: a caller that attaches them takes the walk step by step, with
    /// [`OpenWalk::begin`].
    pub fn open_with(
        existing_link_path: PathBuf,
        link: Option<String>,
        region: Option<&[u8]>,
        footprints: Footprints,
    ) -> (result: Result<SharedMem, ShmemError>)
        ensures
            match spec_open(
                existing_link_path,
                spec_link_text(link),
                spec_region_bytes(region),
                footprints,
            ) {
                Ok(view) => result is Ok && result->Ok_0@ == view && view.wf(),
                Err(e) => result is Err && result->Err_0 == e,
            },
    {
        let ghost link_view = spec_link_text(link);
        let ghost region_view = spec_region_bytes(region);
        let ghost goal = spec_open(existing_link_path, link_view, region_view, footprints);
        proof {
            if let Some(bytes) = region {
                assert(bytes@.len() == bytes.len());
            }
            lemma_begin_outcome(existing_link_path, link_view, region_view, footprints);
        }
        let mut walk = match OpenWalk::begin(existing_link_path, link, region, footprints) {
            Ok(walk) => walk,
            Err(e) => {
                return Err(e);
            },
        };
        loop
            invariant
                walk@.wf(),
                walk@.outcome() == goal,
                goal == spec_open(
                    existing_link_path,
                    spec_link_text(link),
                    spec_region_bytes(region),
                    footprints,
                ),
            decreases walk@.locks_left,
        {
            proof {
                lemma_outcome_unfolds(walk@);
            }
            match walk.next() {
                Err(e) => {
                    return Err(e);
                },
                Ok(OpenStep::Done(shmem)) => {
                    return Ok(shmem);
                },
                Ok(OpenStep::Attach(pending)) => {
                    walk = match pending.resume(true) {
                        Ok(rest) => rest,
                        Err(e) => {
                            return Err(e);
                        },
                    };
                },
            }
        }
    }

    /// Opens the region behind a link file, reading it with this
    /// platform's footprints. See [`SharedMem::open_with`], which this is
    /// for the footprints that the handle then reports.
    pub fn open(existing_link_path: PathBuf, link: Option<String>, region: Option<&[u8]>) -> (result:
        Result<SharedMem, ShmemError>)
        ensures
            exists|footprints: Footprints|
                match #[trigger] spec_open(
                    existing_link_path,
                    spec_link_text(link),
                    spec_region_bytes(region),
                    footprints,
                ) {
                    Ok(view) => result is Ok && result->Ok_0@ == view && view.wf(),
                    Err(e) => result is Err && result->Err_0 == e,
                },
    {
        SharedMem::open_with(existing_link_path, link, region, Footprints::native())
    }
}

} // verus!
