//! Streaming statistics over integer samples.
use vstd::prelude::*;

pub mod clock;
pub mod codel;
pub mod diff;
pub mod drawdown;
pub mod fixed;
pub mod jitter;
pub mod liveness;
pub mod max_gauge;
pub mod peak_hold;
pub mod running;
pub mod windowed;

verus! {

/// A configuration error reported by a builder.
#[derive(Debug, Clone, Copy, PartialEq, Eq)]
pub enum ConfigError {
    /// A required parameter was not set; names the parameter.
    Missing(&'static str),
    /// A parameter was set to an unusable value; says why.
    Invalid(&'static str),
}

/// Health verdict of a monitor.
#[derive(Debug, Clone, Copy, PartialEq, Eq)]
pub enum Condition {
    Normal,
    Degraded,
}

} // verus!
