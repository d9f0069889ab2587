//! Shared-memory IPC: segment control blocks, the SPSC ring and the
//! segmented append log, as byte layouts and state machines.
pub mod control;
pub mod error;
pub mod journal;
pub mod pod;
pub mod region;
pub mod ring;
pub mod seglog;
pub mod segment;
