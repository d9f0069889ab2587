//! Verified core of the nexus low-latency toolkit.
pub mod net;
pub mod platform;
pub mod shm;
pub mod stats;
