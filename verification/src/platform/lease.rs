//! Process liveness as reported by a kernel-held lease.
use vstd::prelude::*;

verus! {

/// Result of probing a process lease.
#[derive(Debug, Clone, Copy, PartialEq, Eq)]
pub enum Liveness {
    /// The owning process is alive (lease still held).
    Alive,
    /// The owning process has exited (lease released by the kernel).
    Dead,
    /// The probe failed; treat as indeterminate.
    Unknown,
}

} // verus!
