use shared_memory::{
    Footprints, GenericLock, LockPlacement, LockType, MapData, OpenStep, OpenWalk, SharedMem,
    SharedMemConf, SharedMemRaw, ShmemError, Shortfall,
};
use std::path::PathBuf;

fn footprints() -> Footprints {
    Footprints::new(40, 56)
}

fn one_mutex(size: usize) -> SharedMemConf {
    SharedMemConf::with_footprints(PathBuf::from("shared_mem.link"), size, footprints())
        .add_lock(LockType::Mutex, 0, size)
        .unwrap()
}

fn mapping(id: &str, map_size: usize) -> Option<MapData> {
    Some(MapData { unique_id: String::from(id), map_size })
}

// Stands for the creating process: asks for the mapping, writes the
// metadata block at its start, and leaves the payload zeroed.
fn create_region(conf: SharedMemConf) -> (SharedMem, Vec<u8>) {
    let total = conf.region_size().unwrap();
    let shmem = conf.create(false, mapping("test_mapping", total)).unwrap();
    let mut region = shmem.metadata_image();
    region.resize(total, 0);
    let shmem = shmem.initialised(true).unwrap();
    (shmem, region)
}

fn open_region(region: &[u8]) -> Result<SharedMem, ShmemError> {
    SharedMem::open_with(
        PathBuf::from("shared_mem.link"),
        Some(String::from("test_mapping")),
        Some(region),
        footprints(),
    )
}

#[test]
fn create_places_the_locks_and_owns_the_link() {
    let conf = SharedMemConf::with_footprints(PathBuf::from("x.link"), 100, footprints())
        .add_lock(LockType::Mutex, 0, 100)
        .unwrap()
        .add_lock(LockType::RwLock, 10, 20)
        .unwrap();
    let shmem = conf.create(false, mapping("id", 300)).unwrap();
    assert!(shmem.is_owner());
    assert_eq!(*shmem.get_size(), 100);
    assert_eq!(*shmem.get_metadata_size(), 176);
    assert_eq!(*shmem.get_map_size(), 300);
    assert_eq!(shmem.get_real_path(), "id");
    assert_eq!(shmem.get_link_path(), &PathBuf::from("x.link"));
    assert_eq!(shmem.num_locks(), 2);
    assert_eq!(
        shmem.get_lock(0),
        Some(GenericLock {
            kind: LockType::Mutex,
            offset: 0,
            length: 100,
            placement: Some(LockPlacement { primitive_offset: 56, data_offset: 176 }),
        })
    );
    assert_eq!(
        shmem.get_lock(1),
        Some(GenericLock {
            kind: LockType::RwLock,
            offset: 10,
            length: 20,
            placement: Some(LockPlacement { primitive_offset: 120, data_offset: 186 }),
        })
    );
    assert_eq!(shmem.get_lock(2), None);
}

#[test]
fn create_fails_when_the_link_exists() {
    let result = one_mutex(4096).create(true, mapping("id", 4192));
    assert!(matches!(result, Err(ShmemError::AlreadyExists)));
    let result = one_mutex(4096).create(true, None);
    assert!(matches!(result, Err(ShmemError::AlreadyExists)));
}

#[test]
fn create_fails_without_a_mapping() {
    let result = one_mutex(4096).create(false, None);
    assert!(matches!(result, Err(ShmemError::MappingError)));
}

#[test]
fn create_fails_on_a_mapping_that_is_too_short() {
    let result = one_mutex(4096).create(false, mapping("id", 4191));
    assert!(matches!(result, Err(ShmemError::MappingError)));
    let result = one_mutex(4096).create(false, mapping("id", 4192));
    assert!(result.is_ok());
}

#[test]
fn second_create_on_the_same_link_leaves_the_first_region_alone() {
    let (first, region) = create_region(one_mutex(4096));
    let before = region.clone();
    // The link file of the first region is there now.
    let second = one_mutex(4096).create(true, None);
    assert!(matches!(second, Err(ShmemError::AlreadyExists)));
    assert_eq!(region, before);
    assert!(first.is_owner());
    assert!(open_region(&region).is_ok());
}

#[test]
fn metadata_image_bytes() {
    let (shmem, region) = create_region(one_mutex(4096));
    let image = shmem.metadata_image();
    let mut expected = vec![0u8; 96];
    expected[0] = 96; // metadata size
    expected[9] = 16; // payload size, 4096
    expected[16] = 1; // one lock
    expected[32] = 0; // the mutex tag
    expected[49] = 16; // the lock's length, 4096
    assert_eq!(image, expected);
    assert_eq!(&region[..96], &expected[..]);
    assert_eq!(region.len(), 4192);
}

#[test]
fn metadata_image_of_a_rwlock() {
    let conf = SharedMemConf::with_footprints(PathBuf::from("x.link"), 512, Footprints::new(4, 2))
        .add_lock(LockType::RwLock, 256, 255)
        .unwrap();
    let image = conf.metadata_image();
    let mut expected = vec![0u8; 58];
    expected[0] = 58;
    expected[9] = 2;
    expected[16] = 1;
    expected[32] = 1;
    expected[41] = 1;
    expected[48] = 255;
    assert_eq!(image, expected);
}

#[test]
fn open_recovers_what_was_created() {
    let conf = SharedMemConf::with_footprints(PathBuf::from("x.link"), 1000, footprints())
        .add_lock(LockType::RwLock, 0, 1000)
        .unwrap()
        .add_lock(LockType::Mutex, 999, 1)
        .unwrap()
        .add_lock(LockType::Mutex, 500, 0)
        .unwrap()
        .add_lock(LockType::RwLock, 1, 998)
        .unwrap();
    let (created, region) = create_region(conf);
    let opened = open_region(&region).unwrap();
    assert_eq!(opened.num_locks(), created.num_locks());
    assert_eq!(opened.num_locks(), 4);
    for i in 0..4 {
        assert_eq!(opened.get_lock(i), created.get_lock(i));
    }
    assert_eq!(opened.get_lock(1).unwrap().kind, LockType::Mutex);
    assert_eq!(opened.get_lock(1).unwrap().offset, 999);
    assert_eq!(opened.get_lock(1).unwrap().length, 1);
    assert_eq!(*opened.get_size(), 1000);
    assert_eq!(opened.get_metadata_size(), created.get_metadata_size());
    assert_eq!(*opened.get_map_size(), region.len());
    assert!(!opened.is_owner());
    assert_eq!(opened.get_real_path(), "test_mapping");
    assert_eq!(opened.metadata_image(), created.metadata_image());
}

#[test]
fn open_ignores_what_the_primitives_and_payload_hold() {
    let (created, mut region) = create_region(one_mutex(64));
    for byte in region[56..].iter_mut() {
        *byte = 0xa5;
    }
    let opened = open_region(&region).unwrap();
    assert_eq!(opened.get_lock(0), created.get_lock(0));
}

#[test]
fn open_accepts_a_region_without_locks() {
    let conf = SharedMemConf::with_footprints(PathBuf::from("x.link"), 0, footprints());
    let (_, region) = create_region(conf);
    assert_eq!(region.len(), 32);
    let opened = open_region(&region).unwrap();
    assert_eq!(opened.num_locks(), 0);
    assert_eq!(*opened.get_size(), 0);
}

#[test]
fn open_accepts_a_mapping_larger_than_declared() {
    let (_, mut region) = create_region(one_mutex(64));
    region.resize(4096, 0);
    let opened = open_region(&region).unwrap();
    assert_eq!(*opened.get_size(), 64);
    assert_eq!(*opened.get_map_size(), 4096);
}

#[test]
fn open_walks_event_headers() {
    // One lock, then three event headers in front of the payload.
    let (_, created) = create_region(one_mutex(16));
    let mut region = created[..96].to_vec();
    region.extend_from_slice(&[7, 8, 9]);
    region.extend_from_slice(&[0u8; 16]);
    region[0] = 99;
    region[24] = 3;
    let opened = open_region(&region).unwrap();
    assert_eq!(*opened.get_metadata_size(), 99);
    assert_eq!(opened.num_locks(), 1);
    assert_eq!(opened.get_lock(0).unwrap().placement.unwrap().data_offset, 99);
    assert_eq!(&opened.metadata_image()[..], &region[..99]);
    // One event header short, or one too many.
    region[24] = 2;
    assert_eq!(open_region(&region).err(), Some(ShmemError::CorruptMetadata));
    region[24] = 4;
    assert_eq!(open_region(&region).err(), Some(ShmemError::CorruptMetadata));
}

#[test]
fn open_fails_without_a_link_file() {
    let (_, region) = create_region(one_mutex(64));
    let result =
        SharedMem::open_with(PathBuf::from("x.link"), None, Some(&region[..]), footprints());
    assert_eq!(result.err(), Some(ShmemError::NotFound));
    let result = SharedMem::open_with(PathBuf::from("x.link"), None, None, footprints());
    assert_eq!(result.err(), Some(ShmemError::NotFound));
}

#[test]
fn open_fails_without_a_mapping() {
    let result =
        SharedMem::open_with(PathBuf::from("x.link"), Some(String::from("id")), None, footprints());
    assert_eq!(result.err(), Some(ShmemError::MappingError));
}

#[test]
fn open_fails_on_a_mapping_shorter_than_the_global_header() {
    let (_, region) = create_region(one_mutex(64));
    assert_eq!(
        open_region(&region[..31]).err(),
        Some(ShmemError::TooSmall(Shortfall::GlobalHeader))
    );
    assert_eq!(open_region(&[]).err(), Some(ShmemError::TooSmall(Shortfall::GlobalHeader)));
}

#[test]
fn open_fails_on_a_mapping_one_byte_short() {
    let (_, region) = create_region(one_mutex(4096));
    let short = &region[..region.len() - 1];
    assert_eq!(open_region(short).err(), Some(ShmemError::TooSmall(Shortfall::DeclaredSizes)));
    let (_, region) = create_region(SharedMemConf::with_footprints(
        PathBuf::from("x.link"),
        0,
        footprints(),
    ));
    let short = &region[..region.len() - 1];
    assert_eq!(open_region(short).err(), Some(ShmemError::TooSmall(Shortfall::GlobalHeader)));
}

#[test]
fn open_fails_on_declared_sizes_that_wrap() {
    let (_, mut region) = create_region(one_mutex(64));
    for byte in region[0..16].iter_mut() {
        *byte = 0xff;
    }
    assert_eq!(open_region(&region).err(), Some(ShmemError::TooSmall(Shortfall::DeclaredSizes)));
}

#[test]
fn open_fails_on_any_corrupted_byte_of_the_lock_count() {
    let conf = one_mutex(4096).add_lock(LockType::RwLock, 1, 2).unwrap();
    let (_, region) = create_region(conf);
    for at in 16..24 {
        for value in 0u8..=255 {
            if value == region[at] {
                continue;
            }
            let mut corrupted = region.clone();
            corrupted[at] = value;
            assert_eq!(open_region(&corrupted).err(), Some(ShmemError::CorruptMetadata));
        }
    }
}

#[test]
fn a_wrong_lock_count_over_many_event_headers_still_fails() {
    // No lock, and enough event headers to be taken for a lock header.
    let mut region = vec![0u8; 32];
    region.extend_from_slice(&[9u8; 24]);
    region.extend_from_slice(&[0u8; 8]);
    region[0] = 56;
    region[8] = 8;
    region[24] = 24;
    let opened = open_region(&region).unwrap();
    assert_eq!(opened.num_locks(), 0);
    assert_eq!(opened.num_events(), 24);
    region[16] = 1;
    assert_eq!(open_region(&region).err(), Some(ShmemError::UnknownLockKind));
}

#[test]
fn spans_of_the_locks() {
    let conf = one_mutex(64).add_lock(LockType::RwLock, 60, 4).unwrap();
    let (shmem, region) = create_region(conf);
    assert_eq!(shmem.primitive_span(0), Some((56, 40)));
    assert_eq!(shmem.payload_span(0), Some((176, 64)));
    assert_eq!(shmem.primitive_span(1), Some((120, 56)));
    assert_eq!(shmem.payload_span(1), Some((236, 4)));
    assert_eq!(shmem.primitive_span(2), None);
    assert_eq!(shmem.payload_span(2), None);
    assert_eq!(region.len(), 240);
}

#[test]
fn open_fails_when_the_headers_end_short_of_the_payload() {
    let (_, mut region) = create_region(one_mutex(64));
    region.push(0);
    region[0] = 97;
    assert_eq!(open_region(&region).err(), Some(ShmemError::CorruptMetadata));
}

#[test]
fn open_fails_when_a_lock_header_crosses_into_the_payload() {
    let (_, mut region) = create_region(one_mutex(64));
    region[0] = 55;
    assert_eq!(open_region(&region).err(), Some(ShmemError::CorruptMetadata));
    region[0] = 0;
    assert_eq!(open_region(&region).err(), Some(ShmemError::CorruptMetadata));
}

#[test]
fn open_fails_when_a_primitive_crosses_into_the_payload() {
    let (_, mut region) = create_region(one_mutex(64));
    region[0] = 95;
    assert_eq!(open_region(&region).err(), Some(ShmemError::CorruptMetadata));
}

#[test]
fn open_fails_on_an_unknown_lock_tag() {
    let (_, mut region) = create_region(one_mutex(64));
    region[32] = 2;
    assert_eq!(open_region(&region).err(), Some(ShmemError::UnknownLockKind));
    region[32] = 255;
    assert_eq!(open_region(&region).err(), Some(ShmemError::UnknownLockKind));
}

#[test]
fn open_fails_on_a_lock_range_outside_the_payload() {
    let (_, region) = create_region(one_mutex(64));
    let mut moved = region.clone();
    moved[40] = 64; // offset at the end of the payload, length 64
    assert_eq!(open_region(&moved).err(), Some(ShmemError::InvalidRange));
    let mut long = region.clone();
    long[48] = 65; // offset 0, length past the end
    assert_eq!(open_region(&long).err(), Some(ShmemError::InvalidRange));
    let mut wide = region.clone();
    wide[47] = 0x80; // an offset that no payload reaches
    assert_eq!(open_region(&wide).err(), Some(ShmemError::InvalidRange));
    let mut edge = region.clone();
    edge[40] = 63;
    edge[48] = 1; // the last byte alone
    assert!(open_region(&edge).is_ok());
}

#[test]
fn the_unknown_tag_is_found_before_the_bad_range() {
    let (_, mut region) = create_region(one_mutex(64));
    region[32] = 9;
    region[40] = 64;
    assert_eq!(open_region(&region).err(), Some(ShmemError::UnknownLockKind));
}

#[test]
fn open_reads_with_the_native_footprints() {
    let conf = SharedMemConf::new(PathBuf::from("shared_mem.link"), 256)
        .add_lock(LockType::Mutex, 0, 256)
        .unwrap()
        .add_lock(LockType::RwLock, 0, 128)
        .unwrap();
    let total = conf.region_size().unwrap();
    let created = conf.create(false, mapping("native", total)).unwrap();
    let mut region = created.metadata_image();
    region.resize(total, 0);
    let opened = SharedMem::open(
        PathBuf::from("shared_mem.link"),
        Some(String::from("native")),
        Some(&region[..]),
    )
    .unwrap();
    assert_eq!(opened.num_locks(), 2);
    assert_eq!(opened.get_lock(0), created.get_lock(0));
    assert_eq!(opened.get_lock(1), created.get_lock(1));
    let native = Footprints::native();
    assert_eq!(*opened.get_metadata_size(), 32 + 24 + native.mutex + 24 + native.rwlock);
}

#[test]
fn walk_hands_out_each_lock_before_it_reads_the_next() {
    let conf = one_mutex(64).add_lock(LockType::RwLock, 1, 2).unwrap();
    let (created, mut region) = create_region(conf);
    // The second lock's tag is broken: the first lock is still handed out.
    region[96] = 9;
    let walk = OpenWalk::begin(
        PathBuf::from("x.link"),
        Some(String::from("id")),
        Some(&region[..]),
        footprints(),
    )
    .unwrap();
    let pending = match walk.next() {
        Ok(OpenStep::Attach(pending)) => pending,
        _ => panic!("the first lock should be handed out"),
    };
    assert_eq!(Some(pending.lock()), created.get_lock(0));
    let walk = pending.resume(true).unwrap();
    assert_eq!(walk.next().err(), Some(ShmemError::UnknownLockKind));
}

#[test]
fn walk_ends_with_init_error_when_a_lock_cannot_be_attached() {
    let conf = one_mutex(64).add_lock(LockType::RwLock, 1, 2).unwrap();
    let (_, mut region) = create_region(conf);
    region[96] = 9;
    let walk = OpenWalk::begin(
        PathBuf::from("x.link"),
        Some(String::from("id")),
        Some(&region[..]),
        footprints(),
    )
    .unwrap();
    let pending = match walk.next() {
        Ok(OpenStep::Attach(pending)) => pending,
        _ => panic!("the first lock should be handed out"),
    };
    assert_eq!(pending.resume(false).err(), Some(ShmemError::InitError));
}

#[test]
fn walk_taken_to_its_end_is_open() {
    let conf = one_mutex(64).add_lock(LockType::RwLock, 1, 2).unwrap();
    let (_, region) = create_region(conf);
    let mut walk = OpenWalk::begin(
        PathBuf::from("x.link"),
        Some(String::from("test_mapping")),
        Some(&region[..]),
        footprints(),
    )
    .unwrap();
    let mut seen = Vec::new();
    let shmem = loop {
        match walk.next().unwrap() {
            OpenStep::Attach(pending) => {
                seen.push(pending.lock());
                walk = pending.resume(true).unwrap();
            }
            OpenStep::Done(shmem) => break shmem,
        }
    };
    let opened = open_region(&region).unwrap();
    assert_eq!(seen.len(), 2);
    assert_eq!(Some(seen[0]), opened.get_lock(0));
    assert_eq!(Some(seen[1]), opened.get_lock(1));
    assert_eq!(shmem.num_locks(), 2);
    assert_eq!(shmem.get_metadata_size(), opened.get_metadata_size());
}

#[test]
fn walk_begin_reports_what_is_missing() {
    let begin = OpenWalk::begin(PathBuf::from("x.link"), None, None, footprints());
    assert_eq!(begin.err(), Some(ShmemError::NotFound));
    let begin =
        OpenWalk::begin(PathBuf::from("x.link"), Some(String::from("id")), None, footprints());
    assert_eq!(begin.err(), Some(ShmemError::MappingError));
    let short = [0u8; 8];
    let begin = OpenWalk::begin(
        PathBuf::from("x.link"),
        Some(String::from("id")),
        Some(&short[..]),
        footprints(),
    );
    assert_eq!(begin.err(), Some(ShmemError::TooSmall(Shortfall::GlobalHeader)));
}

#[test]
fn failed_initialisation_gives_the_handle_up() {
    let shmem = one_mutex(64).create(false, mapping("id", 160)).unwrap();
    assert_eq!(shmem.initialised(false).err(), Some(ShmemError::InitError));
    let shmem = one_mutex(64).create(false, mapping("id", 160)).unwrap();
    assert!(shmem.initialised(true).is_ok());
}

#[test]
fn link_must_be_written_in_full() {
    let shmem = one_mutex(64).create(false, mapping("test_mapping", 160)).unwrap();
    assert_eq!(shmem.link_written(Some(12)), Ok(()));
    assert_eq!(shmem.link_written(Some(11)), Err(ShmemError::PersistError));
    assert_eq!(shmem.link_written(Some(13)), Err(ShmemError::PersistError));
    assert_eq!(shmem.link_written(Some(0)), Err(ShmemError::PersistError));
    assert_eq!(shmem.link_written(None), Err(ShmemError::PersistError));
}

#[test]
fn link_length_counts_bytes() {
    let shmem = one_mutex(64).create(false, mapping("m\u{e9}m", 160)).unwrap();
    assert_eq!(shmem.link_written(Some(4)), Ok(()));
    assert_eq!(shmem.link_written(Some(3)), Err(ShmemError::PersistError));
}

#[test]
fn only_the_creator_removes_the_link() {
    let (created, region) = create_region(one_mutex(64));
    let opened = open_region(&region).unwrap();
    assert!(created.unlink_on_drop(true));
    assert!(!created.unlink_on_drop(false));
    assert!(!opened.unlink_on_drop(true));
    assert!(!opened.unlink_on_drop(false));
}

#[test]
fn payload_written_by_one_handle_is_read_by_the_other() {
    let (writer, mut region) = create_region(one_mutex(4096));
    let src = b"Some string you want to share\x00";
    {
        let lock = writer.get_lock(0).unwrap();
        assert_eq!(lock.kind, LockType::Mutex);
        assert_eq!((lock.offset, lock.length), (0, 4096));
        let start = lock.placement.unwrap().data_offset;
        let payload = &mut region[start..start + lock.length];
        assert_eq!(payload.len(), 4096);
        payload[0..src.len()].copy_from_slice(src);
    }
    let reader = open_region(&region).unwrap();
    let lock = reader.get_lock(0).unwrap();
    let start = lock.placement.unwrap().data_offset;
    let payload = &region[start..start + lock.length];
    let mut expected = src.to_vec();
    expected.resize(31, 0);
    assert_eq!(&payload[..31], &expected[..]);
    assert_eq!(*reader.get_size(), 4096);
}

#[test]
fn every_lock_lies_inside_the_mapping() {
    let conf = SharedMemConf::with_footprints(PathBuf::from("x.link"), 77, Footprints::new(3, 11))
        .add_lock(LockType::RwLock, 76, 1)
        .unwrap()
        .add_lock(LockType::Mutex, 0, 77)
        .unwrap()
        .add_lock(LockType::Mutex, 40, 0)
        .unwrap();
    let (created, region) = create_region(conf);
    let opened = SharedMem::open_with(
        PathBuf::from("x.link"),
        Some(String::from("id")),
        Some(&region[..]),
        Footprints::new(3, 11),
    )
    .unwrap();
    let meta = *opened.get_metadata_size();
    assert_eq!(meta, 32 + (24 + 11) + (24 + 3) + (24 + 3));
    let mut expected_primitive = 32 + 24;
    for i in 0..opened.num_locks() {
        let lock = opened.get_lock(i).unwrap();
        assert_eq!(Some(lock), created.get_lock(i));
        let placement = lock.placement.unwrap();
        let footprint = Footprints::new(3, 11).size_of(lock.kind);
        assert_eq!(placement.primitive_offset, expected_primitive);
        assert!(placement.primitive_offset + footprint <= meta);
        assert_eq!(placement.data_offset, meta + lock.offset);
        assert!(placement.data_offset + lock.length <= region.len());
        expected_primitive += footprint + 24;
    }
}

#[test]
fn a_region_read_with_other_footprints_is_not_misread() {
    let (_, region) = create_region(one_mutex(64));
    let result = SharedMem::open_with(
        PathBuf::from("x.link"),
        Some(String::from("id")),
        Some(&region[..]),
        Footprints::new(48, 56),
    );
    assert_eq!(result.err(), Some(ShmemError::CorruptMetadata));
    let result = SharedMem::open_with(
        PathBuf::from("x.link"),
        Some(String::from("id")),
        Some(&region[..]),
        Footprints::new(32, 56),
    );
    assert_eq!(result.err(), Some(ShmemError::CorruptMetadata));
}

#[test]
fn raw_handle_takes_the_whole_mapping_as_payload() {
    let raw = SharedMemRaw::open(String::from("/dev/shm/raw"), Some(4096)).unwrap();
    assert_eq!(*raw.get_size(), 4096);
    assert_eq!(raw.get_path(), "/dev/shm/raw");
    let failed = SharedMemRaw::open(String::from("/dev/shm/raw"), None);
    assert_eq!(failed.err(), Some(ShmemError::MappingError));
}
