//! The errors that building, creating and opening a region can report.

use vstd::prelude::*;

verus! {

/// What a mapping turned out to be too small for.
#[derive(Clone, Copy, Debug, PartialEq, Eq, Structural)]
pub enum Shortfall {
    /// The mapping cannot even hold the global header.
    GlobalHeader,
    /// The mapping is smaller than the metadata and payload sizes that its
    /// global header declares.
    DeclaredSizes,
}

/// Every way in which an operation on a region can fail.
#[derive(Clone, Copy, Debug, PartialEq, Eq, Structural)]
pub enum ShmemError {
    /// The link path already names a file.
    AlreadyExists,
    /// The link file does not exist.
    NotFound,
    /// The operating system could not create or attach the mapping.
    MappingError,
    /// The mapping is smaller than its metadata needs.
    TooSmall(Shortfall),
    /// A lock's offset and length do not lie inside the payload.
    InvalidRange,
    /// A lock header carries a tag that names no lock kind.
    UnknownLockKind,
    /// A native primitive could not be constructed or attached.
    InitError,
    /// The headers do not end exactly where the payload begins.
    CorruptMetadata,
    /// The link file could not be written in full.
    PersistError,
}

impl ShmemError {
    /// The text of [`ShmemError::message`].
    pub open spec fn spec_message(self) -> Seq<char> {
        match self {
            ShmemError::AlreadyExists => "Cannot create SharedMem because file already exists"@,
            ShmemError::NotFound => "Cannot open SharedMem, link file doesnt exists"@,
            ShmemError::MappingError => "Failed to create or attach the shared memory mapping"@,
            ShmemError::TooSmall(Shortfall::GlobalHeader) => "Mapping is smaller than our metadata header size !"@,
            ShmemError::TooSmall(Shortfall::DeclaredSizes) => "Shared memory header contains an invalid mapping size"@,
            ShmemError::InvalidRange => "Invalid lock range"@,
            ShmemError::UnknownLockKind => "Shared memory metadata names an unknown lock type"@,
            ShmemError::InitError => "Failed to initialize a lock"@,
            ShmemError::CorruptMetadata => "Shared memory metadata does not end right before user data !"@,
            ShmemError::PersistError => "Failed to write full contents info on disk"@,
        }
    }

    /// A sentence that describes the error.
    pub fn message(&self) -> (text: String)
        ensures
            text@ == self.spec_message(),
    {
        match self {
            ShmemError::AlreadyExists => "Cannot create SharedMem because file already exists".to_owned(),
            ShmemError::NotFound => "Cannot open SharedMem, link file doesnt exists".to_owned(),
            ShmemError::MappingError => "Failed to create or attach the shared memory mapping".to_owned(),
            ShmemError::TooSmall(Shortfall::GlobalHeader) => "Mapping is smaller than our metadata header size !".to_owned(),
            ShmemError::TooSmall(Shortfall::DeclaredSizes) => "Shared memory header contains an invalid mapping size".to_owned(),
            ShmemError::InvalidRange => "Invalid lock range".to_owned(),
            ShmemError::UnknownLockKind => "Shared memory metadata names an unknown lock type".to_owned(),
            ShmemError::InitError => "Failed to initialize a lock".to_owned(),
            ShmemError::CorruptMetadata => "Shared memory metadata does not end right before user data !".to_owned(),
            ShmemError::PersistError => "Failed to write full contents info on disk".to_owned(),
        }
    }
}

} // verus!
