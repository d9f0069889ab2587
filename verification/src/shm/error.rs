//! Errors of the shared-memory layer.
use vstd::prelude::*;

verus! {

/// Errors from creating, attaching or validating shared-memory segments.
#[derive(Debug)]
pub enum ShmError {
    /// The control block does not start with the segment magic.
    BadMagic { found: u32 },
    /// The layout version is not the one this library writes.
    UnsupportedLayout { found: u16, expected: u16 },
    /// A segment with no payload was requested, or the file is empty.
    EmptySegment,
    /// The mapping is smaller than the control block plus payload.
    MappingTooSmall { required: usize, actual: usize },
    /// A live process owns the segment.
    OwnerActive,
    /// A size computation overflowed.
    SizeOverflow,
    /// A stored header field is not valid.
    CorruptHeader,
    /// The stored element size differs from the reader's.
    ElemSizeMismatch { written: usize, expected: usize },
    /// Huge pages were requested but none are available.
    HugePagesUnavailable(std::io::Error),
    /// An operating-system call failed.
    Os(std::io::Error),
}

} // verus!
