//! Raw log entries.

use vstd::prelude::*;

verus! {

/// What kind of line opened a log entry.
#[derive(Clone, Copy, Debug, PartialEq, Eq, Structural)]
pub enum EntryHeader {
    /// `[UnityCrossThreadLogger]`.
    UnityCrossThreadLogger,
    /// `[Client GRE]`.
    ClientGre,
    /// A metadata line without a bracketed header, such as `DETAILED LOGS`.
    Metadata,
    /// The marker of a summarized message block.
    TruncationMarker,
}

/// One entry of the log: its header and all of its text, the header line
/// first.
#[derive(Debug)]
pub struct LogEntry {
    pub header: EntryHeader,
    pub body: String,
}

} // verus!
