//! OS mapping primitives: options, naming rules and bounds decisions.
pub mod lease;
pub mod mapped_file;
pub mod mapping;
pub mod shared_memory;
