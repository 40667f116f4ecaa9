//! Stream processing core for an HTTP access-log monitor.
//!
//! The crate ingests log records (already decoded by the caller) and derives
//! two outputs: periodic traffic summaries over fixed windows of log time,
//! and threshold-crossing alerts for sustained high traffic, reported as a
//! state transition (onset / ongoing / recovery). All windowing is driven by
//! the timestamps embedded in the records, never by the wall clock, so
//! replaying a fixed log is deterministic.

use vstd::prelude::*;

pub mod alerts;
pub mod display;
pub mod driver;
pub mod stats;

verus! {

/// A timestamp in whole seconds, as carried by each log record.
pub type Date = i64;

/// One decoded access-log record. Immutable once built; the core components
/// read it and never change it.
#[derive(Debug, Clone)]
pub struct Record {
    pub remotehost: String,
    pub rfc931: String,
    pub authuser: String,
    pub date: Date,
    pub request: String,
    pub status: u16,
    pub bytes: u64,
}

/// The aggregator was invoked on an empty batch, so no timestamp span can be
/// derived. In correct usage the driver never summarizes an empty buffer.
#[derive(Debug, Clone, Copy, PartialEq, Eq, Structural)]
pub struct EmptyBatchError;

/// A configuration value rejected at startup. The core treats non-positive
/// cadence, TTL or threshold, and an unknown display name, as fatal
/// configuration errors rather than runtime conditions.
#[derive(Debug, Clone, Copy, PartialEq, Eq, Structural)]
pub enum ConfigurationError {
    NonPositiveCadence,
    NonPositiveTtl,
    NonPositiveThreshold,
    UnknownDisplay,
}

} // verus!
