//! The fixed-size records at the front of a region, and how they are laid
//! down in bytes.
//!
//! Every integer field takes eight bytes, least significant byte first. A
//! lock header keeps its tag in the first byte and pads it to eight, so
//! that the native primitive that follows the header stays aligned.

use vstd::prelude::*;
use vstd::bytes::{spec_u64_from_le_bytes, spec_u64_to_le_bytes, u64_from_le_bytes, u64_to_le_bytes, lemma_auto_spec_u64_to_from_le_bytes};
use vstd::slice::slice_subrange;

verus! {

/// Bytes taken by the global header.
pub const GLOBAL_HEADER_SIZE: usize = 32;

/// Bytes taken by one lock header, without the primitive that follows it.
pub const LOCK_HEADER_SIZE: usize = 24;

/// Bytes taken by one event header.
pub const EVENT_HEADER_SIZE: usize = 1;

/// The integer stored in the eight bytes that start at `at`.
pub open spec fn spec_u64_at(bytes: Seq<u8>, at: int) -> u64 {
    spec_u64_from_le_bytes(bytes.subrange(at, at + 8))
}

/// Reads the integer stored in the eight bytes that start at `at`.
pub fn u64_at(bytes: &[u8], at: usize) -> (value: u64)
    requires
        at + 8 <= bytes@.len(),
    ensures
        value == spec_u64_at(bytes@, at as int),
{
    assert(bytes@.len() == bytes.len());
    u64_from_le_bytes(slice_subrange(bytes, at, at + 8))
}

/// `count` zero bytes.
pub open spec fn spec_zeros(count: nat) -> Seq<u8> {
    Seq::new(count, |i: int| 0u8)
}

/// Appends the eight bytes of `value` to `out`.
pub fn push_u64(out: &mut Vec<u8>, value: u64)
    ensures
        final(out)@ == old(out)@ + spec_u64_to_le_bytes(value),
{
    let mut bytes = u64_to_le_bytes(value);
    out.append(&mut bytes);
}

/// Appends `count` zero bytes to `out`.
pub fn push_zeros(out: &mut Vec<u8>, count: usize)
    ensures
        final(out)@ == old(out)@ + spec_zeros(count as nat),
{
    let mut done: usize = 0;
    while done < count
        invariant
            done <= count,
            out@ == old(out)@ + spec_zeros(done as nat),
        decreases count - done,
    {
        out.push(0u8);
        done = done + 1;
    }
}

/// The record that opens a region and says how to read the rest of it.
#[derive(Clone, Copy, Debug, PartialEq, Eq, Structural)]
pub struct MetaDataHeader {
    /// Bytes of metadata in front of the payload, counting this header.
    pub meta_size: u64,
    /// Bytes of payload.
    pub user_size: u64,
    /// Number of lock records that follow.
    pub num_locks: u64,
    /// Number of event headers that follow the lock records.
    pub num_events: u64,
}

impl MetaDataHeader {
    /// The header's bytes.
    pub open spec fn spec_to_bytes(self) -> Seq<u8> {
        spec_u64_to_le_bytes(self.meta_size) + spec_u64_to_le_bytes(self.user_size)
            + spec_u64_to_le_bytes(self.num_locks) + spec_u64_to_le_bytes(self.num_events)
    }

    /// The header stored at the front of `bytes`.
    pub open spec fn spec_read(bytes: Seq<u8>) -> MetaDataHeader {
        MetaDataHeader {
            meta_size: spec_u64_at(bytes, 0),
            user_size: spec_u64_at(bytes, 8),
            num_locks: spec_u64_at(bytes, 16),
            num_events: spec_u64_at(bytes, 24),
        }
    }

    /// Appends the header's bytes to `out`.
    pub fn write(&self, out: &mut Vec<u8>)
        ensures
            final(out)@ == old(out)@ + self.spec_to_bytes(),
            self.spec_to_bytes().len() == GLOBAL_HEADER_SIZE,
    {
        proof {
            lemma_auto_spec_u64_to_from_le_bytes();
        }
        push_u64(out, self.meta_size);
        push_u64(out, self.user_size);
        push_u64(out, self.num_locks);
        push_u64(out, self.num_events);
    }

    /// Reads the header stored at the front of `bytes`.
    pub fn read(bytes: &[u8]) -> (header: MetaDataHeader)
        requires
            GLOBAL_HEADER_SIZE <= bytes@.len(),
        ensures
            header == MetaDataHeader::spec_read(bytes@),
    {
        MetaDataHeader {
            meta_size: u64_at(bytes, 0),
            user_size: u64_at(bytes, 8),
            num_locks: u64_at(bytes, 16),
            num_events: u64_at(bytes, 24),
        }
    }
}

/// The record in front of each lock's native primitive.
#[derive(Clone, Copy, Debug, PartialEq, Eq, Structural)]
pub struct LockHeader {
    /// The tag of the lock's kind.
    pub uid: u8,
    /// Offset, inside the payload, of the first byte that the lock governs.
    pub offset: u64,
    /// Number of payload bytes that the lock governs.
    pub length: u64,
}

impl LockHeader {
    /// The header's bytes.
    pub open spec fn spec_to_bytes(self) -> Seq<u8> {
        seq![self.uid] + spec_zeros(7) + spec_u64_to_le_bytes(self.offset) + spec_u64_to_le_bytes(
            self.length,
        )
    }

    /// The header stored in the bytes that start at `at`.
    pub open spec fn spec_read(bytes: Seq<u8>, at: int) -> LockHeader {
        LockHeader {
            uid: bytes[at],
            offset: spec_u64_at(bytes, at + 8),
            length: spec_u64_at(bytes, at + 16),
        }
    }

    /// Appends the header's bytes to `out`.
    pub fn write(&self, out: &mut Vec<u8>)
        ensures
            final(out)@ == old(out)@ + self.spec_to_bytes(),
            self.spec_to_bytes().len() == LOCK_HEADER_SIZE,
    {
        proof {
            lemma_auto_spec_u64_to_from_le_bytes();
        }
        out.push(self.uid);
        push_zeros(out, 7);
        push_u64(out, self.offset);
        push_u64(out, self.length);
        assert(out@ == old(out)@ + self.spec_to_bytes());
    }

    /// Reads the header stored in the bytes that start at `at`.
    pub fn read(bytes: &[u8], at: usize) -> (header: LockHeader)
        requires
            at + LOCK_HEADER_SIZE <= bytes@.len(),
        ensures
            header == LockHeader::spec_read(bytes@, at as int),
    {
        LockHeader { uid: bytes[at], offset: u64_at(bytes, at + 8), length: u64_at(bytes, at + 16) }
    }
}

/// The record of an event: its tag and nothing else.
#[derive(Clone, Copy, Debug, PartialEq, Eq, Structural)]
pub struct EventHeader {
    /// The tag of the event's kind.
    pub event_id: u8,
}

impl EventHeader {
    /// The header's bytes.
    pub open spec fn spec_to_bytes(self) -> Seq<u8> {
        seq![self.event_id]
    }

    /// The header stored in the byte at `at`.
    pub open spec fn spec_read(bytes: Seq<u8>, at: int) -> EventHeader {
        EventHeader { event_id: bytes[at] }
    }

    /// Appends the header's byte to `out`.
    pub fn write(&self, out: &mut Vec<u8>)
        ensures
            final(out)@ == old(out)@ + self.spec_to_bytes(),
            self.spec_to_bytes().len() == EVENT_HEADER_SIZE,
    {
        out.push(self.event_id);
    }

    /// Reads the header stored in the byte at `at`.
    pub fn read(bytes: &[u8], at: usize) -> (header: EventHeader)
        requires
            at < bytes@.len(),
        ensures
            header == EventHeader::spec_read(bytes@, at as int),
    {
        EventHeader { event_id: bytes[at] }
    }
}

/// A global header is read back from any bytes that begin with its own.
pub proof fn lemma_global_header_round_trip(header: MetaDataHeader, bytes: Seq<u8>)
    requires
        bytes.len() >= GLOBAL_HEADER_SIZE,
        bytes.subrange(0, GLOBAL_HEADER_SIZE as int) == header.spec_to_bytes(),
    ensures
        MetaDataHeader::spec_read(bytes) == header,
{
    lemma_auto_spec_u64_to_from_le_bytes();
    let own = header.spec_to_bytes();
    assert(bytes.subrange(0, 8) == own.subrange(0, 8));
    assert(bytes.subrange(8, 16) == own.subrange(8, 16));
    assert(bytes.subrange(16, 24) == own.subrange(16, 24));
    assert(bytes.subrange(24, 32) == own.subrange(24, 32));
    assert(own.subrange(0, 8) == spec_u64_to_le_bytes(header.meta_size));
    assert(own.subrange(8, 16) == spec_u64_to_le_bytes(header.user_size));
    assert(own.subrange(16, 24) == spec_u64_to_le_bytes(header.num_locks));
    assert(own.subrange(24, 32) == spec_u64_to_le_bytes(header.num_events));
}

/// A lock header is read back from wherever its bytes were laid down.
pub proof fn lemma_lock_header_round_trip(header: LockHeader, bytes: Seq<u8>, at: int)
    requires
        0 <= at,
        at + LOCK_HEADER_SIZE <= bytes.len(),
        bytes.subrange(at, at + LOCK_HEADER_SIZE) == header.spec_to_bytes(),
    ensures
        LockHeader::spec_read(bytes, at) == header,
{
    lemma_auto_spec_u64_to_from_le_bytes();
    let own = header.spec_to_bytes();
    let cut = bytes.subrange(at, at + LOCK_HEADER_SIZE);
    assert(bytes[at] == cut[0]);
    assert(bytes.subrange(at + 8, at + 16) == cut.subrange(8, 16));
    assert(bytes.subrange(at + 16, at + 24) == cut.subrange(16, 24));
    assert(own.subrange(8, 16) == spec_u64_to_le_bytes(header.offset));
    assert(own.subrange(16, 24) == spec_u64_to_le_bytes(header.length));
}

/// Two runs of eight bytes that hold the same integer are the same bytes.
pub proof fn lemma_u64_bytes_determined(a: Seq<u8>, b: Seq<u8>)
    requires
        a.len() == 8,
        b.len() == 8,
        spec_u64_from_le_bytes(a) == spec_u64_from_le_bytes(b),
    ensures
        a == b,
{
    lemma_auto_spec_u64_to_from_le_bytes();
    assert(spec_u64_to_le_bytes(spec_u64_from_le_bytes(a)) == a);
    assert(spec_u64_to_le_bytes(spec_u64_from_le_bytes(b)) == b);
}

} // verus!
