//! Lock kinds, their tags and native footprints, and the descriptors that
//! place a lock inside a region.

use vstd::prelude::*;
use crate::error::ShmemError;

verus! {

/// The kinds of lock that can guard a range of the payload.
#[derive(Clone, Copy, Debug, PartialEq, Eq, Structural)]
pub enum LockType {
    /// A process-shared mutex: one holder at a time.
    Mutex,
    /// A process-shared read-write lock: one writer or many readers.
    RwLock,
}

/// How a lock is taken.
#[derive(Clone, Copy, Debug, PartialEq, Eq, Structural)]
pub enum AcquireMode {
    /// Alone.
    Exclusive,
    /// Together with other readers.
    Shared,
}

impl LockType {
    /// The tag that stands for this kind in a lock header.
    pub open spec fn spec_uid(self) -> u8 {
        match self {
            LockType::Mutex => 0,
            LockType::RwLock => 1,
        }
    }

    /// The tag that stands for this kind in a lock header.
    pub fn uid(&self) -> (tag: u8)
        ensures
            tag == self.spec_uid(),
    {
        match self {
            LockType::Mutex => 0,
            LockType::RwLock => 1,
        }
    }

    /// Whether several readers can hold a lock of this kind at once.
    pub open spec fn spec_supports_shared(self) -> bool {
        self == LockType::RwLock
    }

    /// The mode in which a reader takes a lock of this kind: shared where
    /// the kind has shared semantics, exclusive where it has none.
    pub fn read_mode(&self) -> (mode: AcquireMode)
        ensures
            mode == if self.spec_supports_shared() {
                AcquireMode::Shared
            } else {
                AcquireMode::Exclusive
            },
    {
        match self {
            LockType::Mutex => AcquireMode::Exclusive,
            LockType::RwLock => AcquireMode::Shared,
        }
    }
}

/// The lock kind that a tag stands for, if any.
pub open spec fn spec_lock_uid_to_type(uid: u8) -> Option<LockType> {
    if uid == 0 {
        Some(LockType::Mutex)
    } else if uid == 1 {
        Some(LockType::RwLock)
    } else {
        None
    }
}

/// Finds the lock kind that a tag read from a lock header stands for. A tag that
/// names no kind is refused with `UnknownLockKind`.
pub fn lock_uid_to_type(uid: &u8) -> (kind: Result<LockType, ShmemError>)
    ensures
        kind == match spec_lock_uid_to_type(*uid) {
            Some(k) => Ok::<LockType, ShmemError>(k),
            None => Err(ShmemError::UnknownLockKind),
        },
{
    if *uid == 0 {
        Ok(LockType::Mutex)
    } else if *uid == 1 {
        Ok(LockType::RwLock)
    } else {
        Err(ShmemError::UnknownLockKind)
    }
}

/// Every kind is found again from its own tag.
pub proof fn lemma_uid_round_trip(kind: LockType)
    ensures
        spec_lock_uid_to_type(kind.spec_uid()) == Some(kind),
{
}

/// The number of bytes that each lock kind's native primitive occupies
/// inside a region.
#[derive(Clone, Copy, Debug, PartialEq, Eq, Structural)]
pub struct Footprints {
    /// Bytes taken by a mutex.
    pub mutex: usize,
    /// Bytes taken by a read-write lock.
    pub rwlock: usize,
}

/// The size of the platform's `pthread_mutex_t`, as `std::mem::size_of`
/// gives it for the type that `nix::libc` declares. The value differs from
/// one target to the next, so nothing is claimed of it.
#[verifier::external_body]
fn native_mutex_size() -> (bytes: usize) {
    core::mem::size_of::<nix::libc::pthread_mutex_t>()
}

/// The size of the platform's `pthread_rwlock_t`, as `std::mem::size_of`
/// gives it for the type that `nix::libc` declares. The value differs from
/// one target to the next, so nothing is claimed of it.
#[verifier::external_body]
fn native_rwlock_size() -> (bytes: usize) {
    core::mem::size_of::<nix::libc::pthread_rwlock_t>()
}

impl Footprints {
    /// The footprint of a lock of the given kind.
    pub open spec fn spec_size_of(self, kind: LockType) -> usize {
        match kind {
            LockType::Mutex => self.mutex,
            LockType::RwLock => self.rwlock,
        }
    }

    /// A table with the given footprints.
    pub fn new(mutex: usize, rwlock: usize) -> (table: Footprints)
        ensures
            table == (Footprints { mutex, rwlock }),
    {
        Footprints { mutex, rwlock }
    }

    /// The footprints of this platform's primitives. They are whatever the
    /// platform says, which is why every layout computation takes the table
    /// as a value.
    pub fn native() -> Footprints {
        Footprints { mutex: native_mutex_size(), rwlock: native_rwlock_size() }
    }

    /// The footprint of a lock of the given kind.
    pub fn size_of(&self, kind: LockType) -> (bytes: usize)
        ensures
            bytes == self.spec_size_of(kind),
    {
        match kind {
            LockType::Mutex => self.mutex,
            LockType::RwLock => self.rwlock,
        }
    }
}

/// Where a lock lives inside a mapped region. Both positions are byte
/// offsets from the start of the mapping, so that they mean the same in
/// every process that maps the region.
#[derive(Clone, Copy, Debug, PartialEq, Eq, Structural)]
pub struct LockPlacement {
    /// Offset of the first byte of the native primitive.
    pub primitive_offset: usize,
    /// Offset of the first payload byte that the lock governs.
    pub data_offset: usize,
}

/// A lock over a range of the payload.
#[derive(Clone, Copy, Debug, PartialEq, Eq, Structural)]
pub struct GenericLock {
    /// The kind of lock.
    pub kind: LockType,
    /// Offset, inside the payload, of the first byte that the lock governs.
    pub offset: usize,
    /// Number of payload bytes that the lock governs.
    pub length: usize,
    /// Where the lock lives once the region is mapped; `None` before.
    pub placement: Option<LockPlacement>,
}

/// An event slot. Events are reserved: they occupy a header in the layout
/// and nothing else.
#[derive(Clone, Copy, Debug, PartialEq, Eq, Structural)]
pub struct GenericEvent {
    /// The tag stored in the event's header.
    pub uid: u8,
}

} // verus!
