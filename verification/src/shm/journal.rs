//! Configuration of a journal over numbered segment files.
use vstd::prelude::*;
use crate::shm::region::MapOptions;

verus! {

/// Segment size a default journal uses: 64 MiB.
pub const DEFAULT_JOURNAL_SEGMENT: usize = 67108864;

/// Configuration for opening a journal.
#[derive(Debug, Clone, Copy)]
pub struct JournalConfig {
    pub segment_size: usize,
    pub hints: MapOptions,
}

impl Default for JournalConfig {
    fn default() -> (c: Self)
        ensures
            c.segment_size == DEFAULT_JOURNAL_SEGMENT,
            !c.hints.pretouch,
            !c.hints.huge_pages,
    {
        JournalConfig {
            segment_size: DEFAULT_JOURNAL_SEGMENT,
            hints: MapOptions { pretouch: false, huge_pages: false },
        }
    }
}

} // verus!
