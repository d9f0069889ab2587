//! Errors of the segmented log.
use vstd::prelude::*;
use crate::shm::error::ShmError;
use vstd::string::StringExecFns;
use crate::shm::seglog::session_ids::{decimal_text, push_decimal};

verus! {

/// Errors from opening, recovering or configuring a log.
#[derive(Debug)]
#[non_exhaustive]
pub enum OpenError {
    /// A stored setting differs from the requested one.
    ConfigMismatch { field: &'static str, expected: u64, found: u64 },
    /// The session is already open elsewhere.
    SessionInUse { session_id: u32 },
    /// No manifest exists for the session.
    SessionNotFound { session_id: u32 },
    /// The segment size does not fit the 32-bit local offset.
    SegmentTooLarge { size: usize },
    /// A segment or manifest could not be mapped or validated.
    Shm(ShmError),
    /// A file-system call failed.
    Io(std::io::Error),
}

/// Errors from live log operations.
#[derive(Debug, Clone, Copy, PartialEq, Eq)]
#[non_exhaustive]
pub enum LogError {
    /// The payload does not fit in one segment; `max` is the largest that
    /// does.
    RecordTooLarge { max: usize },
    /// The standby segment has not been cleaned since the last rotation.
    StandbyNotReady,
}

impl From<ShmError> for OpenError {
    fn from(e: ShmError) -> (r: Self) {
        OpenError::Shm(e)
    }
}

impl vstd::std_specs::convert::FromSpecImpl<ShmError> for OpenError {
    open spec fn obeys_from_spec() -> bool {
        true
    }

    open spec fn from_spec(v: ShmError) -> OpenError {
        OpenError::Shm(v)
    }
}

impl From<std::io::Error> for OpenError {
    fn from(e: std::io::Error) -> (r: Self) {
        OpenError::Io(e)
    }
}

impl vstd::std_specs::convert::FromSpecImpl<std::io::Error> for OpenError {
    open spec fn obeys_from_spec() -> bool {
        true
    }

    open spec fn from_spec(v: std::io::Error) -> OpenError {
        OpenError::Io(v)
    }
}

impl LogError {
    /// The error's description.
    pub fn message(&self) -> (r: String)
        ensures
            self matches LogError::RecordTooLarge { max } ==> r@ == "payload exceeds segment capacity ("@
                + decimal_text(max as nat) + " bytes max)"@,
            (self is StandbyNotReady) ==> r@ == "conductor has not finished cleaning the standby segment"@,
    {
        let mut s = String::new();
        match self {
            LogError::RecordTooLarge { max } => {
                s.append("payload exceeds segment capacity (");
                push_decimal(&mut s, *max as u64);
                s.append(" bytes max)");
            },
            LogError::StandbyNotReady => {
                s.append("conductor has not finished cleaning the standby segment");
            },
        }
        s
    }
}

} // verus!
