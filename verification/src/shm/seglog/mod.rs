//! Three-segment bounded append log.
pub mod session_ids;
pub mod conductor;
pub mod error;
pub mod frame;
pub mod log;
pub mod manifest;
