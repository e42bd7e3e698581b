//! Shared memory between processes, with the locks that guard it laid out
//! inside the region itself.
//!
//! A region starts with a metadata block: a global header, one record per
//! lock (a header followed by the bytes of the native primitive) and one
//! header per event. The user payload follows immediately. This crate holds
//! the layout, the builder that sizes it, and the create and open protocols
//! that write and re-read it. Mapping memory and driving the native
//! primitives is left to the caller, who hands in plain bytes and sizes.

pub mod conf;
pub mod error;
pub mod laws;
pub mod layout;
pub mod locking;
pub mod model;
pub mod open;
pub mod shmem;

pub use conf::SharedMemConf;
pub use error::{ShmemError, Shortfall};
pub use locking::{lock_uid_to_type, AcquireMode, Footprints, GenericEvent, GenericLock, LockPlacement, LockType};
pub use open::{LockAttach, OpenStep, OpenWalk};
pub use shmem::{MapData, SharedMem, SharedMemRaw};
