//! Configuration of the conductor that owns a directory of sessions.
use vstd::prelude::*;
use std::path::PathBuf;
use crate::shm::seglog::session_ids::{decimal_text, push_char, push_decimal};

verus! {

/// Declares `std::path::PathBuf`; paths are carried opaquely.
#[verifier::external_type_specification]
#[verifier::external_body]
pub struct ExPathBuf(std::path::PathBuf);

/// Backlog of the clean-request channel unless configured.
pub const DEFAULT_CLEAN_QUEUE_DEPTH: usize = 4;

/// Builder for a conductor rooted at a directory.
pub struct ConductorBuilder {
    dir: PathBuf,
    clean_queue_depth: usize,
    archive: bool,
}

impl ConductorBuilder {
    pub closed spec fn spec_clean_queue_depth(&self) -> usize {
        self.clean_queue_depth
    }

    pub closed spec fn spec_archive(&self) -> bool {
        self.archive
    }

    pub closed spec fn spec_dir(&self) -> PathBuf {
        self.dir
    }

    /// A builder rooted at `dir`: queue depth 4, no archiving.
    pub fn new(dir: PathBuf) -> (b: Self)
        ensures
            b.spec_clean_queue_depth() == DEFAULT_CLEAN_QUEUE_DEPTH,
            !b.spec_archive(),
            b.spec_dir() == dir,
    {
        ConductorBuilder { dir, clean_queue_depth: DEFAULT_CLEAN_QUEUE_DEPTH, archive: false }
    }

    /// Sets the backlog depth of the clean-request channel.
    pub fn clean_queue_depth(self, depth: usize) -> (b: Self)
        ensures
            b.spec_clean_queue_depth() == depth,
            b.spec_archive() == self.spec_archive(),
            b.spec_dir() == self.spec_dir(),
    {
        ConductorBuilder { clean_queue_depth: depth, ..self }
    }

    /// Archives evicted segments before dropping them.
    pub fn archive(self, enable: bool) -> (b: Self)
        ensures
            b.spec_archive() == enable,
            b.spec_clean_queue_depth() == self.spec_clean_queue_depth(),
            b.spec_dir() == self.spec_dir(),
    {
        ConductorBuilder { archive: enable, ..self }
    }

    /// The configured queue depth.
    pub fn queue_depth(&self) -> (r: usize)
        ensures
            r == self.spec_clean_queue_depth(),
    {
        self.clean_queue_depth
    }

    /// Whether evicted segments are archived.
    pub fn archives(&self) -> (r: bool)
        ensures
            r == self.spec_archive(),
    {
        self.archive
    }

    /// The root directory, consuming the builder.
    pub fn into_dir(self) -> (r: PathBuf)
        ensures
            r == self.spec_dir(),
    {
        self.dir
    }
}

/// What the conductor's loop does once its queue is drained.
#[derive(Debug, Clone, Copy, PartialEq, Eq)]
pub enum Wait {
    /// Every sender is gone: stop.
    Exit,
    /// Nothing to retry: block for the next request.
    Block,
    /// Creates are failing and nothing new came: back off before retrying.
    Sleep,
    /// Creates are failing but requests keep coming: retry at once.
    Retry,
}

/// The loop's next move after a drain: stop once disconnected, otherwise
/// block when no create awaits a retry, otherwise back off unless requests
/// were just handled.
pub fn after_drain(disconnected: bool, pending_empty: bool, drained: bool) -> (w: Wait)
    ensures
        disconnected ==> w == Wait::Exit,
        !disconnected && pending_empty ==> w == Wait::Block,
        !disconnected && !pending_empty && !drained ==> w == Wait::Sleep,
        !disconnected && !pending_empty && drained ==> w == Wait::Retry,
{
    if disconnected {
        Wait::Exit
    } else if pending_empty {
        Wait::Block
    } else if !drained {
        Wait::Sleep
    } else {
        Wait::Retry
    }
}

/// Whether an evicted segment file is moved into the archive: only once it
/// is synced to disk, with archiving on and the archive directory made.
pub fn should_archive(synced: bool, archive: bool, dir_created: bool) -> (r: bool)
    ensures
        r == (synced && archive && dir_created),
{
    synced && archive && dir_created
}

fn push_str4(s: &mut String, a: char, b: char, c: char, d: char)
    ensures
        final(s)@ == old(s)@ + seq![a, b, c, d],
{
    push_char(s, a);
    push_char(s, b);
    push_char(s, c);
    push_char(s, d);
    assert(s@ =~= old(s)@ + seq![a, b, c, d]);
}

/// The archive file an evicted segment of `epoch` is renamed to:
/// `seg_{epoch}.dat`.
pub fn archive_file_name(epoch: u64) -> (r: String)
    ensures
        r@ == seq!['s', 'e', 'g', '_'] + decimal_text(epoch as nat) + seq!['.', 'd', 'a', 't'],
{
    let mut s = String::new();
    push_str4(&mut s, 's', 'e', 'g', '_');
    push_decimal(&mut s, epoch);
    push_str4(&mut s, '.', 'd', 'a', 't');
    assert(s@ =~= seq!['s', 'e', 'g', '_'] + decimal_text(epoch as nat) + seq!['.', 'd', 'a', 't']);
    s
}

/// The file of rotation slot `slot`: `seg{slot}.dat`.
pub fn slot_file_name(slot: u8) -> (r: String)
    ensures
        r@ == seq!['s', 'e', 'g'] + decimal_text(slot as nat) + seq!['.', 'd', 'a', 't'],
{
    let mut s = String::new();
    push_char(&mut s, 's');
    push_char(&mut s, 'e');
    push_char(&mut s, 'g');
    push_decimal(&mut s, slot as u64);
    push_str4(&mut s, '.', 'd', 'a', 't');
    assert(s@ =~= seq!['s', 'e', 'g'] + decimal_text(slot as nat) + seq!['.', 'd', 'a', 't']);
    s
}

} // verus!
