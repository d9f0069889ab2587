//! The control block at the head of every segment: magic, layout version,
//! mapping flags, incarnation counter, liveness status, owner pid and
//! payload length.
use vstd::prelude::*;
use crate::shm::error::ShmError;

verus! {

/// `"NXSM"` read as a little-endian `u32`.
pub const MAGIC: u32 = 0x4D53_584E;

/// Layout version this library writes.
pub const LAYOUT_VERSION: u16 = 1;

/// Status of a block never written.
pub const STATUS_UNINIT: u32 = 0;

/// Status while the creator holds the segment.
pub const STATUS_ALIVE: u32 = 1;

/// Status after the creator let go.
pub const STATUS_DEAD: u32 = 2;

/// Fields of a segment's control block.
#[derive(Debug, Clone, Copy, PartialEq, Eq, Structural)]
pub struct ControlBlock {
    pub magic: u32,
    pub layout_ver: u16,
    pub flags: u16,
    pub generation: u64,
    pub status: u32,
    pub owner_pid: u32,
    pub data_len: u64,
}

/// Declares `crossbeam_utils::CachePadded`, the cache-line aligned
/// wrapper the control block is mapped in.
#[verifier::external_type_specification]
#[verifier::external_body]
#[verifier::reject_recursive_types(T)]
pub struct ExCachePadded<T>(crossbeam_utils::CachePadded<T>);

/// Bytes the control block's mapped form occupies on this target: the
/// size of its 32 bytes of fields in a `CachePadded`.
pub open spec fn control_block_len() -> nat {
    vstd::layout::size_of::<crossbeam_utils::CachePadded<[u64; 4]>>()
}

/// Calls `core::mem::size_of` on `CachePadded<[u64; 4]>`. The size is the
/// fields' 32 bytes rounded up to `CachePadded`'s alignment, which is 16 to
/// 256 bytes depending on the target: at least 32 and a multiple of 8.
#[verifier::external_body]
pub(crate) fn control_block_size() -> (r: usize)
    ensures
        r == control_block_len(),
        r >= 32,
        r % 8 == 0,
{
    core::mem::size_of::<crossbeam_utils::CachePadded<[u64; 4]>>()
}

impl ControlBlock {
    /// A block of zero bytes, as a fresh file holds.
    pub fn zeroed() -> (cb: Self)
        ensures
            cb == (ControlBlock {
                magic: 0,
                layout_ver: 0,
                flags: 0,
                generation: 0,
                status: 0,
                owner_pid: 0,
                data_len: 0,
            }),
    {
        ControlBlock { magic: 0, layout_ver: 0, flags: 0, generation: 0, status: 0, owner_pid: 0, data_len: 0 }
    }

    /// Stamps the block for a new incarnation and marks it alive.
    pub fn write_header(&mut self, flags: u16, generation: u64, owner_pid: u32, data_len: u64)
        ensures
            *final(self) == (ControlBlock {
                magic: MAGIC,
                layout_ver: LAYOUT_VERSION,
                flags,
                generation,
                status: STATUS_ALIVE,
                owner_pid,
                data_len,
            }),
    {
        self.magic = MAGIC;
        self.layout_ver = LAYOUT_VERSION;
        self.flags = flags;
        self.data_len = data_len;
        self.generation = generation;
        self.owner_pid = owner_pid;
        self.status = STATUS_ALIVE;
    }

    /// Checks the magic, then the layout version.
    pub fn validate(&self) -> (r: Result<(), ShmError>)
        ensures
            self.magic != MAGIC ==> (r matches Err(ShmError::BadMagic { found }) && found == self.magic),
            self.magic == MAGIC && self.layout_ver != LAYOUT_VERSION ==> (r matches Err(
                ShmError::UnsupportedLayout { found, expected },
            ) && found == self.layout_ver && expected == LAYOUT_VERSION),
            r is Ok <==> self.magic == MAGIC && self.layout_ver == LAYOUT_VERSION,
    {
        if self.magic != MAGIC {
            return Err(ShmError::BadMagic { found: self.magic });
        }
        if self.layout_ver != LAYOUT_VERSION {
            return Err(ShmError::UnsupportedLayout { found: self.layout_ver, expected: LAYOUT_VERSION });
        }
        Ok(())
    }

    pub fn status(&self) -> (r: u32)
        ensures
            r == self.status,
    {
        self.status
    }

    /// Marks the creator gone; nothing else changes.
    pub fn mark_dead(&mut self)
        ensures
            *final(self) == (ControlBlock { status: STATUS_DEAD, ..*old(self) }),
    {
        self.status = STATUS_DEAD;
    }

    pub fn generation(&self) -> (r: u64)
        ensures
            r == self.generation,
    {
        self.generation
    }

    pub fn owner_pid(&self) -> (r: u32)
        ensures
            r == self.owner_pid,
    {
        self.owner_pid
    }

    pub fn data_len(&self) -> (r: u64)
        ensures
            r == self.data_len,
    {
        self.data_len
    }
}

} // verus!
