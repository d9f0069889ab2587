//! Mapping parameters, errors, and the copy-length rule of mapped reads and
//! writes.
use vstd::prelude::*;

verus! {

/// Declares `std::io::Error` to the verifier; values are carried opaquely.
#[verifier::external_type_specification]
#[verifier::external_body]
pub struct ExIoError(std::io::Error);

/// How a mapping shares writes with the backing store and other mappings.
#[derive(Debug, Clone, Copy, PartialEq, Eq)]
pub enum Sharing {
    /// Writes are visible to other mappings and reach the backing store.
    Shared,
    /// Copy-on-write: writes stay private to this mapping.
    Private,
}

/// Access protection of a mapping.
#[derive(Debug, Clone, Copy, PartialEq, Eq)]
pub enum Protection {
    ReadOnly,
    ReadWrite,
}

/// Kernel hint for the expected access pattern.
#[derive(Debug, Clone, Copy, PartialEq, Eq)]
pub enum Advice {
    Normal,
    Sequential,
    Random,
    WillNeed,
    DontNeed,
}

/// Best-effort hints for mapping creation.
#[derive(Debug, Clone, Copy)]
pub struct MapOptions {
    /// Pre-fault pages on creation.
    pub pretouch: bool,
    /// Request huge-page backing.
    pub huge_pages: bool,
}

impl Default for MapOptions {
    fn default() -> (o: Self)
        ensures
            !o.pretouch && !o.huge_pages,
    {
        MapOptions { pretouch: false, huge_pages: false }
    }
}

/// Error from memory-mapping operations.
#[derive(Debug)]
pub enum MapError {
    /// An I/O error from the underlying call.
    Io(std::io::Error),
    /// The file has zero length and cannot be mapped.
    EmptyFile,
    /// The requested offset plus length exceeds the file or mapping.
    OutOfBounds,
    /// Huge pages were requested but the pool is exhausted.
    HugePagesUnavailable(std::io::Error),
}

impl From<std::io::Error> for MapError {
    fn from(e: std::io::Error) -> (r: Self) {
        MapError::Io(e)
    }
}

impl vstd::std_specs::convert::FromSpecImpl<std::io::Error> for MapError {
    open spec fn obeys_from_spec() -> bool {
        true
    }

    open spec fn from_spec(v: std::io::Error) -> MapError {
        MapError::Io(v)
    }
}

/// Calls `std::io::Error::new` with kind `InvalidInput` and the given
/// message. Nothing is stated of the error value, which is opaque here.
#[verifier::external_body]
pub(crate) fn invalid_input(msg: &'static str) -> std::io::Error {
    std::io::Error::new(std::io::ErrorKind::InvalidInput, msg)
}

/// Bytes a read or write at `offset` moves: the buffer length, cut to what
/// the mapping holds past `offset` (nothing when `offset` is past the end).
pub fn transfer_len(map_len: usize, offset: usize, buf_len: usize) -> (n: usize)
    ensures
        n == (if offset >= map_len { 0 } else if buf_len <= map_len - offset { buf_len } else { (map_len - offset) as usize }),
        n <= buf_len,
        n > 0 ==> offset + n <= map_len,
{
    let avail = map_len.saturating_sub(offset);
    if buf_len < avail { buf_len } else { avail }
}

/// The arguments an `mmap` call is made with.
#[derive(Debug, Clone, Copy, PartialEq, Eq)]
pub struct MmapRequest {
    /// `PROT_WRITE` alongside `PROT_READ`.
    pub writable: bool,
    /// `MAP_SHARED` rather than `MAP_PRIVATE`.
    pub shared: bool,
    /// `MAP_POPULATE`.
    pub populate: bool,
    /// `MAP_HUGETLB`.
    pub hugetlb: bool,
    /// The file offset as an `off_t`.
    pub offset: i64,
}

/// The `mmap` arguments for a mapping: protection and sharing as asked,
/// the hints as flags, and the offset, which must fit an `off_t`.
pub fn mmap_request(prot: Protection, sharing: Sharing, opts: MapOptions, offset: u64) -> (r: Result<
    MmapRequest,
    MapError,
>)
    ensures
        offset > i64::MAX ==> (r matches Err(MapError::Io(_))),
        offset <= i64::MAX ==> (r matches Ok(q) && q == (MmapRequest {
            writable: prot == Protection::ReadWrite,
            shared: sharing == Sharing::Shared,
            populate: opts.pretouch,
            hugetlb: opts.huge_pages,
            offset: offset as i64,
        })),
{
    if offset > 0x7FFF_FFFF_FFFF_FFFF {
        return Err(MapError::Io(invalid_input("offset exceeds off_t range")));
    }
    let writable = match prot {
        Protection::ReadOnly => false,
        Protection::ReadWrite => true,
    };
    let shared = match sharing {
        Sharing::Shared => true,
        Sharing::Private => false,
    };
    Ok(MmapRequest { writable, shared, populate: opts.pretouch, hugetlb: opts.huge_pages, offset: offset as i64 })
}

/// Whether a failed `mmap` means the huge-page pool is exhausted: `ENOMEM`
/// while huge pages were requested. Any other failure is a plain I/O error.
pub fn huge_pages_exhausted(huge_pages: bool, enomem: bool) -> (r: bool)
    ensures
        r == (huge_pages && enomem),
{
    huge_pages && enomem
}

} // verus!
