//! Telemetry normalization and aggregation for CPU performance-counter
//! exports: repairing a quasi-JSON export format, extracting named counters
//! across repeated measurement runs, classifying magnitudes onto a shared
//! decimal scale, and composing plot-ready series.

use vstd::prelude::*;

pub mod aggregate;
pub mod ascii;
pub mod compose;
pub mod magnitude;
pub mod record;
pub mod repair;
pub mod style;
pub mod workload;

verus! {

/// The error kinds that the pipeline can surface. Every error is terminal
/// for the current invocation.
#[derive(Clone, Copy, Debug, PartialEq, Eq, Structural)]
pub enum PerfError {
    /// The input document could not be decoded even after repair.
    MalformedInput,
    /// A counter value's integer portion is not parseable as an unsigned
    /// integer.
    ParseError,
    /// No record matched an event filter within a file set.
    EmptyAggregation,
    /// Positional pairing or element-wise summation was attempted over
    /// sequences of unequal length.
    LengthMismatch,
    /// A file could not be read or a destination was missing.
    Io,
}

} // verus!
