//! Decisions of a mapped segment: its size, the checks on create and
//! attach, the flags and generation stamped into the control block, and
//! the liveness status read back from it.
use vstd::prelude::*;
use crate::shm::control::{ControlBlock, MAGIC, LAYOUT_VERSION, STATUS_ALIVE, STATUS_DEAD, control_block_size, control_block_len};
use crate::shm::error::ShmError;
use crate::shm::region::MapOptions;

verus! {

/// Liveness recorded in a control block.
#[derive(Debug, Clone, Copy, PartialEq, Eq, Structural)]
pub enum Status {
    Uninit,
    Alive,
    Dead,
}

/// The status a raw status word denotes; unknown words read as `Uninit`.
pub open spec fn spec_status_of(raw: u32) -> Status {
    if raw == STATUS_ALIVE {
        Status::Alive
    } else if raw == STATUS_DEAD {
        Status::Dead
    } else {
        Status::Uninit
    }
}

pub fn status_of(raw: u32) -> (r: Status)
    ensures
        r == spec_status_of(raw),
{
    if raw == STATUS_ALIVE {
        Status::Alive
    } else if raw == STATUS_DEAD {
        Status::Dead
    } else {
        Status::Uninit
    }
}

/// The flags word: bit 0 pretouch, bit 1 huge pages.
pub open spec fn spec_flags(hints: MapOptions) -> u16 {
    ((if hints.pretouch { 1int } else { 0int }) + (if hints.huge_pages { 2int } else { 0int })) as u16
}

pub fn flags(hints: MapOptions) -> (r: u16)
    ensures
        r == spec_flags(hints),
{
    let p: u16 = if hints.pretouch { 1 } else { 0 };
    let h: u16 = if hints.huge_pages { 1 } else { 0 };
    let r = p | (h << 1);
    assert(r == p + 2 * h) by (bit_vector)
        requires
            p <= 1,
            h <= 1,
            r == p | (h << 1),
    ;
    r
}

/// The mapping size a segment with `data_len` payload bytes needs: the
/// control block plus the payload, or `SizeOverflow`.
pub fn total_size(data_len: usize) -> (r: Result<usize, ShmError>)
    ensures
        r == (if control_block_len() + data_len <= usize::MAX {
            Ok::<usize, ShmError>((control_block_len() + data_len) as usize)
        } else {
            Err::<usize, ShmError>(ShmError::SizeOverflow)
        }),
        control_block_len() >= 32,
        control_block_len() % 8 == 0,
{
    let header = control_block_size();
    match header.checked_add(data_len) {
        Some(n) => Ok(n),
        None => Err(ShmError::SizeOverflow),
    }
}

/// The generation a re-created segment takes: one past the stored one,
/// wrapping.
pub fn next_generation(stored: u64) -> (r: u64)
    ensures
        r == (if stored == u64::MAX { 0u64 } else { (stored + 1) as u64 }),
{
    stored.wrapping_add(1)
}

/// Checks a create request against the mapping: the payload must be
/// non-empty and fit after a `header`-byte control block.
pub fn check_create(header: usize, data_len: usize, mapping_len: usize) -> (r: Result<(), ShmError>)
    requires
        header + data_len <= usize::MAX,
    ensures
        data_len == 0 ==> (r matches Err(ShmError::EmptySegment)),
        data_len != 0 && mapping_len < header + data_len ==> (r matches Err(
            ShmError::MappingTooSmall { required, actual },
        ) && required == header + data_len && actual == mapping_len),
        r is Ok <==> data_len != 0 && mapping_len >= header + data_len,
{
    if data_len == 0 {
        return Err(ShmError::EmptySegment);
    }
    let required = header + data_len;
    if mapping_len < required {
        return Err(ShmError::MappingTooSmall { required, actual: mapping_len });
    }
    Ok(())
}

/// Initialises a segment's control block for its creator, once the size
/// checks passed: `lease_claimed` is whether the owner lock was taken. On
/// success the block is stamped with the next generation and marked alive.
pub fn init_control(
    cb: &mut ControlBlock,
    header: usize,
    data_len: usize,
    mapping_len: usize,
    hints: MapOptions,
    owner_pid: u32,
    lease_claimed: bool,
) -> (r: Result<(), ShmError>)
    requires
        header + data_len <= usize::MAX,
    ensures
        data_len == 0 ==> (r matches Err(ShmError::EmptySegment)),
        data_len != 0 && mapping_len < header + data_len ==> (r matches Err(
            ShmError::MappingTooSmall { required, actual },
        ) && required == header + data_len && actual == mapping_len),
        data_len != 0 && mapping_len >= header + data_len && !lease_claimed ==> (r matches Err(
            ShmError::OwnerActive,
        )),
        r is Ok <==> data_len != 0 && mapping_len >= header + data_len && lease_claimed,
        r is Ok ==> *final(cb) == (ControlBlock {
            magic: MAGIC,
            layout_ver: LAYOUT_VERSION,
            flags: spec_flags(hints),
            generation: (if old(cb).generation == u64::MAX { 0u64 } else { (old(cb).generation + 1) as u64 }),
            status: STATUS_ALIVE,
            owner_pid,
            data_len: data_len as u64,
        }),
        r is Err ==> *final(cb) == *old(cb),
{
    match check_create(header, data_len, mapping_len) {
        Ok(()) => {},
        Err(e) => return Err(e),
    }
    if !lease_claimed {
        return Err(ShmError::OwnerActive);
    }
    let generation = next_generation(cb.generation());
    cb.write_header(flags(hints), generation, owner_pid, data_len as u64);
    Ok(())
}

/// Checks a block found in a mapping being attached: it must validate and
/// the mapping must hold its payload after a `header`-byte control block.
pub fn check_attach(cb: &ControlBlock, header: usize, mapping_len: usize) -> (r: Result<(), ShmError>)
    requires
        header + cb.data_len <= usize::MAX,
    ensures
        cb.magic != MAGIC ==> (r matches Err(ShmError::BadMagic { found }) && found == cb.magic),
        cb.magic == MAGIC && cb.layout_ver != LAYOUT_VERSION ==> (r matches Err(
            ShmError::UnsupportedLayout { found, expected },
        ) && found == cb.layout_ver && expected == LAYOUT_VERSION),
        cb.magic == MAGIC && cb.layout_ver == LAYOUT_VERSION && mapping_len < header + cb.data_len
            ==> (r matches Err(ShmError::MappingTooSmall { required, actual }) && required == header
            + cb.data_len && actual == mapping_len),
        r is Ok <==> cb.magic == MAGIC && cb.layout_ver == LAYOUT_VERSION && mapping_len >= header
            + cb.data_len,
{
    match cb.validate() {
        Ok(()) => {},
        Err(e) => return Err(e),
    }
    let required = header + cb.data_len() as usize;
    if mapping_len < required {
        return Err(ShmError::MappingTooSmall { required, actual: mapping_len });
    }
    Ok(())
}

/// Attaching succeeds exactly on blocks a creator initialised for a mapping
/// at least as large, and then reads the status the creator wrote.
pub proof fn lemma_created_block_attaches(old_cb: ControlBlock, new_cb: ControlBlock, header: usize, data_len: usize, mapping_len: usize, hints: MapOptions, owner_pid: u32)
    requires
        data_len != 0,
        header + data_len <= mapping_len,
        new_cb == (ControlBlock {
            magic: MAGIC,
            layout_ver: LAYOUT_VERSION,
            flags: spec_flags(hints),
            generation: (if old_cb.generation == u64::MAX { 0u64 } else { (old_cb.generation + 1) as u64 }),
            status: STATUS_ALIVE,
            owner_pid,
            data_len: data_len as u64,
        }),
    ensures
        new_cb.magic == MAGIC && new_cb.layout_ver == LAYOUT_VERSION && mapping_len >= header + new_cb.data_len,
        spec_status_of(new_cb.status) == Status::Alive,
        spec_status_of(ControlBlock { status: STATUS_DEAD, ..new_cb }.status) == Status::Dead,
{
}

} // verus!
