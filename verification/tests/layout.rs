use shared_memory::layout::{
    push_u64, push_zeros, u64_at, EventHeader, LockHeader, MetaDataHeader, EVENT_HEADER_SIZE,
    GLOBAL_HEADER_SIZE, LOCK_HEADER_SIZE,
};
use shared_memory::{lock_uid_to_type, AcquireMode, LockType, ShmemError, Shortfall};

#[test]
fn header_sizes() {
    assert_eq!(GLOBAL_HEADER_SIZE, 32);
    assert_eq!(LOCK_HEADER_SIZE, 24);
    assert_eq!(EVENT_HEADER_SIZE, 1);
}

#[test]
fn integers_are_stored_least_significant_byte_first() {
    let mut out = vec![0xaau8];
    push_u64(&mut out, 0x0102030405060708);
    assert_eq!(out, vec![0xaa, 8, 7, 6, 5, 4, 3, 2, 1]);
    assert_eq!(u64_at(&out, 1), 0x0102030405060708);
}

#[test]
fn push_zeros_appends() {
    let mut out = vec![7u8];
    push_zeros(&mut out, 3);
    assert_eq!(out, vec![7, 0, 0, 0]);
    push_zeros(&mut out, 0);
    assert_eq!(out.len(), 4);
}

#[test]
fn global_header_bytes() {
    let header = MetaDataHeader { meta_size: 96, user_size: 4096, num_locks: 1, num_events: 0 };
    let mut out = Vec::new();
    header.write(&mut out);
    let mut expected = vec![0u8; 32];
    expected[0] = 96;
    expected[9] = 16;
    expected[16] = 1;
    assert_eq!(out, expected);
    assert_eq!(MetaDataHeader::read(&out), header);
}

#[test]
fn lock_header_bytes() {
    let header = LockHeader { uid: 1, offset: 258, length: u64::MAX };
    let mut out = vec![9u8, 9];
    header.write(&mut out);
    let mut expected = vec![9u8, 9, 1, 0, 0, 0, 0, 0, 0, 0, 2, 1, 0, 0, 0, 0, 0, 0];
    expected.extend_from_slice(&[0xff; 8]);
    assert_eq!(out, expected);
    assert_eq!(LockHeader::read(&out, 2), header);
}

#[test]
fn lock_header_read_ignores_padding() {
    let mut bytes = vec![0u8; 24];
    bytes[0] = 1;
    for pad in 1..8 {
        bytes[pad] = 0x5a;
    }
    bytes[8] = 3;
    bytes[16] = 4;
    assert_eq!(LockHeader::read(&bytes, 0), LockHeader { uid: 1, offset: 3, length: 4 });
}

#[test]
fn event_header_bytes() {
    let header = EventHeader { event_id: 200 };
    let mut out = vec![1u8];
    header.write(&mut out);
    assert_eq!(out, vec![1, 200]);
    assert_eq!(EventHeader::read(&out, 1), header);
}

#[test]
fn lock_tags() {
    assert_eq!(LockType::Mutex.uid(), 0);
    assert_eq!(LockType::RwLock.uid(), 1);
    assert_eq!(lock_uid_to_type(&0), Ok(LockType::Mutex));
    assert_eq!(lock_uid_to_type(&1), Ok(LockType::RwLock));
    for tag in 2u8..=255 {
        assert_eq!(lock_uid_to_type(&tag), Err(ShmemError::UnknownLockKind));
    }
}

#[test]
fn readers_share_only_where_the_kind_allows() {
    assert_eq!(LockType::Mutex.read_mode(), AcquireMode::Exclusive);
    assert_eq!(LockType::RwLock.read_mode(), AcquireMode::Shared);
}

#[test]
fn every_error_has_its_own_message() {
    let all = [
        ShmemError::AlreadyExists,
        ShmemError::NotFound,
        ShmemError::MappingError,
        ShmemError::TooSmall(Shortfall::GlobalHeader),
        ShmemError::TooSmall(Shortfall::DeclaredSizes),
        ShmemError::InvalidRange,
        ShmemError::UnknownLockKind,
        ShmemError::InitError,
        ShmemError::CorruptMetadata,
        ShmemError::PersistError,
    ];
    for (i, a) in all.iter().enumerate() {
        assert!(!a.message().is_empty());
        for b in all.iter().skip(i + 1) {
            assert_ne!(a.message(), b.message());
        }
    }
    assert_eq!(ShmemError::InvalidRange.message(), "Invalid lock range");
    assert_eq!(
        ShmemError::AlreadyExists.message(),
        "Cannot create SharedMem because file already exists"
    );
}
