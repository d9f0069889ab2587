//! Mapping hints for segments.
use vstd::prelude::*;

verus! {

/// How a segment's file is mapped.
#[derive(Debug, Clone, Copy, Default, PartialEq, Eq, Structural)]
pub struct MapOptions {
    /// Fault every page in at map time.
    pub pretouch: bool,
    /// Back the mapping with huge pages.
    pub huge_pages: bool,
}

} // verus!
