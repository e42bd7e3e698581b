//! The handle on a live region, and the create path that yields one.

use vstd::prelude::*;
use std::path::PathBuf;
use crate::conf::SharedMemConf;
use crate::error::ShmemError;
use crate::layout::{GLOBAL_HEADER_SIZE, LOCK_HEADER_SIZE};
use crate::locking::GenericLock;
use crate::model::{lemma_record_start_monotonic, spec_lock_record_start, spec_metadata_image, spec_placement, ConfView};

verus! {

/// What the operating system says of a mapping.
pub struct MapData {
    /// The identifier under which other processes find the mapping.
    pub unique_id: String,
    /// The number of bytes that were mapped.
    pub map_size: usize,
}

/// What a handle on a region holds.
pub struct ShmemView {
    /// The configuration of the region.
    pub conf: ConfView,
    /// The identifier under which other processes find the mapping.
    pub unique_id: Seq<char>,
    /// The number of bytes that were mapped.
    pub map_size: usize,
}

impl ShmemView {
    /// The invariant of every handle: its configuration is well formed,
    /// every lock is placed, and metadata and payload fit the mapping.
    pub open spec fn wf(self) -> bool {
        &&& self.conf.wf()
        &&& self.conf.placed()
        &&& self.conf.region_size() <= self.map_size
    }

    /// Whether dropping the handle removes the link file: only the owner
    /// removes it, and only while the path still names a file.
    pub open spec fn unlinks_on_drop(self, link_is_file: bool) -> bool {
        self.conf.owner && link_is_file
    }
}

/// What creating a region comes to. The link path must be free, and the
/// operating system must have mapped at least the bytes that the
/// configuration needs. The handle then owns the link file, and its locks
/// are placed.
pub open spec fn spec_create(conf: ConfView, link_exists: bool, mapping: Option<MapData>) -> Result<
    ShmemView,
    ShmemError,
> {
    if link_exists {
        Err(ShmemError::AlreadyExists)
    } else {
        match mapping {
            None => Err(ShmemError::MappingError),
            Some(os_map) => {
                if os_map.map_size < conf.region_size() {
                    Err(ShmemError::MappingError)
                } else {
                    Ok(
                        ShmemView {
                            conf: conf.mapped(true),
                            unique_id: os_map.unique_id@,
                            map_size: os_map.map_size,
                        },
                    )
                }
            },
        }
    }
}

/// Struct used to manipulate the shared memory.
pub struct SharedMem {
    conf: SharedMemConf,
    os_data: MapData,
}

impl View for SharedMem {
    type V = ShmemView;

    closed spec fn view(&self) -> ShmemView {
        ShmemView {
            conf: self.conf@,
            unique_id: self.os_data.unique_id@,
            map_size: self.os_data.map_size,
        }
    }
}

impl SharedMemConf {
    /// Creates the handle on a freshly mapped region of this shape.
    ///
    /// `link_exists` says whether the link path already names a file, and
    /// `mapping` is what the operating system answered when asked for
    /// [`SharedMemConf::region_size`] bytes, `None` where it refused. The
    /// handle that comes back owns the link file. Its metadata block is
    /// [`SharedMem::metadata_image`], to be written at the start of the
    /// mapping before the locks are initialised.
    pub fn create(self, link_exists: bool, mapping: Option<MapData>) -> (result: Result<
        SharedMem,
        ShmemError,
    >)
        ensures
            match spec_create(self@, link_exists, mapping) {
                Ok(view) => result is Ok && result->Ok_0@ == view && view.wf(),
                Err(e) => result is Err && result->Err_0 == e,
            },
    {
        if link_exists {
            return Err(ShmemError::AlreadyExists);
        }
        match mapping {
            None => Err(ShmemError::MappingError),
            Some(os_map) => {
                let meta_size = *self.get_metadata_size();
                let user_size = *self.get_user_size();
                if os_map.map_size < meta_size || os_map.map_size - meta_size < user_size {
                    return Err(ShmemError::MappingError);
                }
                let conf = self.into_mapped(true);
                Ok(SharedMem::from_parts(conf, os_map))
            },
        }
    }
}

impl SharedMem {
    #[verifier::type_invariant]
    closed spec fn inv(&self) -> bool {
        self@.wf()
    }

    /// Puts a handle together.
    pub(crate) fn from_parts(conf: SharedMemConf, os_data: MapData) -> (shmem: SharedMem)
        requires
            conf@.wf(),
            conf@.placed(),
            conf@.region_size() <= os_data.map_size,
        ensures
            shmem@ == (ShmemView {
                conf: conf@,
                unique_id: os_data.unique_id@,
                map_size: os_data.map_size,
            }),
            shmem@.wf(),
    {
        SharedMem { conf, os_data }
    }

    /// Returns the size of the SharedMem: the number of payload bytes.
    pub fn get_size(&self) -> (size: &usize)
        ensures
            *size == self@.conf.size,
    {
        self.conf.get_user_size()
    }

    /// Returns the number of metadata bytes in front of the payload, which
    /// is the offset of the payload inside the mapping.
    pub fn get_metadata_size(&self) -> (size: &usize)
        ensures
            *size == self@.conf.meta_size,
            self@.wf(),
    {
        proof {
            use_type_invariant(self);
        }
        self.conf.get_metadata_size()
    }

    /// Returns the number of bytes that were mapped.
    pub fn get_map_size(&self) -> (size: &usize)
        ensures
            *size == self@.map_size,
            self@.wf(),
    {
        proof {
            use_type_invariant(self);
        }
        &self.os_data.map_size
    }

    /// Returns the link_path of the SharedMem.
    pub fn get_link_path(&self) -> (path: &PathBuf)
        ensures
            *path == self@.conf.link_path,
    {
        self.conf.get_link_path()
    }

    /// Returns the OS specific path of the shared memory object.
    pub fn get_real_path(&self) -> (path: &String)
        ensures
            path@ == self@.unique_id,
    {
        &self.os_data.unique_id
    }

    /// Says whether this handle must remove the link file when it is
    /// dropped. Only the handle that created the region must.
    pub fn is_owner(&self) -> (owner: bool)
        ensures
            owner == self@.conf.owner,
    {
        self.conf.is_owner()
    }

    /// Says whether the link file is to be removed when this handle is
    /// dropped. `link_is_file` says whether the link path still names a
    /// file. A handle that does not own the link never removes it; the
    /// owner removes it unless it is already gone.
    pub fn unlink_on_drop(&self, link_is_file: bool) -> (unlink: bool)
        ensures
            unlink == self@.unlinks_on_drop(link_is_file),
    {
        self.conf.is_owner() && link_is_file
    }

    /// Judges the initialisation of the locks of a freshly created region.
    /// `initialised` says whether every native primitive could be
    /// constructed in place. Where one could not, the handle is given up
    /// with `InitError`.
    pub fn initialised(self, initialised: bool) -> (result: Result<SharedMem, ShmemError>)
        ensures
            match result {
                Ok(shmem) => initialised && shmem@ == self@ && shmem@.wf(),
                Err(e) => !initialised && e == ShmemError::InitError,
            },
    {
        proof {
            use_type_invariant(&self);
        }
        if initialised {
            Ok(self)
        } else {
            Err(ShmemError::InitError)
        }
    }

    /// Returns the number of locks.
    pub fn num_locks(&self) -> (count: usize)
        ensures
            count == self@.conf.locks.len(),
    {
        self.conf.num_locks()
    }

    /// Returns the lock at `index`, if there is one, placed relative to the
    /// start of the mapping.
    pub fn get_lock(&self, index: usize) -> (lock: Option<GenericLock>)
        ensures
            lock == if index < self@.conf.locks.len() {
                Some(self@.conf.locks[index as int])
            } else {
                None
            },
            self@.wf(),
    {
        proof {
            use_type_invariant(self);
        }
        self.conf.get_lock(index)
    }

    /// Returns the number of events.
    pub fn num_events(&self) -> (count: usize)
        ensures
            count == self@.conf.events.len(),
    {
        self.conf.num_events()
    }

    /// Returns where in the mapping the primitive of the lock at `index`
    /// lies, as an offset and a number of bytes, if there is such a lock.
    /// The span lies inside the metadata, behind the lock's header.
    pub fn primitive_span(&self, index: usize) -> (span: Option<(usize, usize)>)
        ensures
            match span {
                Some((start, length)) => {
                    &&& index < self@.conf.locks.len()
                    &&& self@.conf.locks[index as int].placement == Some(
                        spec_placement(
                            self@.conf.locks,
                            self@.conf.footprints,
                            self@.conf.meta_size as int,
                            index as int,
                        ),
                    )
                    &&& start == self@.conf.locks[index as int].placement->0.primitive_offset
                    &&& length == self@.conf.footprints.spec_size_of(
                        self@.conf.locks[index as int].kind,
                    )
                    &&& GLOBAL_HEADER_SIZE + LOCK_HEADER_SIZE <= start
                    &&& start + length <= self@.conf.meta_size <= self@.map_size
                },
                None => index >= self@.conf.locks.len(),
            },
    {
        proof {
            use_type_invariant(self);
        }
        match self.conf.get_lock(index) {
            None => None,
            Some(lock) => {
                proof {
                    lemma_lock_in_bounds(self@, index as int);
                    assert(lock.placement == Some(
                        spec_placement(
                            self@.conf.locks,
                            self@.conf.footprints,
                            self@.conf.meta_size as int,
                            index as int,
                        ),
                    ));
                }
                match lock.placement {
                    Some(placement) => Some(
                        (placement.primitive_offset, self.conf.get_footprints().size_of(lock.kind)),
                    ),
                    None => None,
                }
            },
        }
    }

    /// Returns where in the mapping the bytes that the lock at `index`
    /// governs lie, as an offset and a number of bytes, if there is such a
    /// lock. The span lies inside the payload.
    pub fn payload_span(&self, index: usize) -> (span: Option<(usize, usize)>)
        ensures
            match span {
                Some((start, length)) => {
                    &&& index < self@.conf.locks.len()
                    &&& start == self@.conf.meta_size + self@.conf.locks[index as int].offset
                    &&& length == self@.conf.locks[index as int].length
                    &&& self@.conf.meta_size <= start
                    &&& start + length <= self@.conf.meta_size + self@.conf.size
                        <= self@.map_size
                },
                None => index >= self@.conf.locks.len(),
            },
    {
        proof {
            use_type_invariant(self);
        }
        match self.conf.get_lock(index) {
            None => None,
            Some(lock) => {
                proof {
                    lemma_lock_in_bounds(self@, index as int);
                }
                match lock.placement {
                    Some(placement) => Some((placement.data_offset, lock.length)),
                    None => None,
                }
            },
        }
    }

    /// Writes the metadata block of the region, as
    /// [`SharedMemConf::metadata_image`] does.
    pub fn metadata_image(&self) -> (image: Vec<u8>)
        ensures
            image@ == spec_metadata_image(self@.conf),
            image@.len() == self@.conf.meta_size,
    {
        self.conf.metadata_image()
    }

    /// Judges the write of the identifier to the link file. `written` is
    /// the number of bytes that went out, `None` where the write failed.
    /// Anything but the identifier's full length is a `PersistError`.
    pub fn link_written(&self, written: Option<usize>) -> (result: Result<(), ShmemError>)
        ensures
            result == if written == Some(
                vstd::utf8::encode_utf8(self@.unique_id).len() as usize,
            ) {
                Ok::<(), ShmemError>(())
            } else {
                Err(ShmemError::PersistError)
            },
    {
        let expected = self.os_data.unique_id.as_str().len();
        match written {
            Some(count) => {
                if count == expected {
                    Ok(())
                } else {
                    Err(ShmemError::PersistError)
                }
            },
            None => Err(ShmemError::PersistError),
        }
    }
}

/// Every lock of a handle lies inside the mapping: its header and
/// primitive inside the metadata, behind the global header, and the bytes
/// that it governs inside the payload.
pub proof fn lemma_lock_in_bounds(shmem: ShmemView, index: int)
    requires
        shmem.wf(),
        0 <= index < shmem.conf.locks.len(),
    ensures
        ({
            let lock = shmem.conf.locks[index];
            let footprint = shmem.conf.footprints.spec_size_of(lock.kind);
            &&& lock.placement is Some
            &&& GLOBAL_HEADER_SIZE + LOCK_HEADER_SIZE <= lock.placement->0.primitive_offset
            &&& lock.placement->0.primitive_offset + footprint <= shmem.conf.meta_size
            &&& lock.placement->0.data_offset == shmem.conf.meta_size + lock.offset
            &&& lock.placement->0.data_offset + lock.length <= shmem.conf.meta_size
                + shmem.conf.size
            &&& shmem.conf.meta_size + shmem.conf.size <= shmem.map_size
        }),
{
    let conf = shmem.conf;
    assert(conf.locks[index].placement == Some(
        spec_placement(conf.locks, conf.footprints, conf.meta_size as int, index),
    ));
    lemma_record_start_monotonic(conf.locks, conf.footprints, 0, index as nat);
    lemma_record_start_monotonic(conf.locks, conf.footprints, (index + 1) as nat, conf.locks.len());
    assert(spec_lock_record_start(conf.locks, conf.footprints, (index + 1) as nat)
        == spec_lock_record_start(conf.locks, conf.footprints, index as nat) + LOCK_HEADER_SIZE
        + conf.footprints.spec_size_of(conf.locks[index].kind));
}

/// A handle on a mapping that carries no metadata: the whole mapping is
/// payload.
pub struct SharedMemRaw {
    os_data: MapData,
}

impl View for SharedMemRaw {
    type V = (Seq<char>, usize);

    closed spec fn view(&self) -> (Seq<char>, usize) {
        (self.os_data.unique_id@, self.os_data.map_size)
    }
}

impl SharedMemRaw {
    /// Creates the handle on an existing mapping. `map_size` is the number
    /// of bytes that the operating system mapped for `unique_id`, `None`
    /// where it could not attach the mapping.
    pub fn open(unique_id: String, map_size: Option<usize>) -> (result: Result<
        SharedMemRaw,
        ShmemError,
    >)
        ensures
            match map_size {
                Some(size) => result is Ok && result->Ok_0@ == (unique_id@, size),
                None => result is Err && result->Err_0 == ShmemError::MappingError,
            },
    {
        match map_size {
            Some(size) => Ok(SharedMemRaw { os_data: MapData { unique_id, map_size: size } }),
            None => Err(ShmemError::MappingError),
        }
    }

    /// Returns the size of the SharedMem.
    pub fn get_size(&self) -> (size: &usize)
        ensures
            *size == self@.1,
    {
        &self.os_data.map_size
    }

    /// Returns the OS specific path of the shared memory object.
    pub fn get_path(&self) -> (path: &String)
        ensures
            path@ == self@.0,
    {
        &self.os_data.unique_id
    }
}

} // verus!
