use vstd::prelude::*;

verus! {

/// The errors that the library's own logic can report.
///
/// Failures of outside collaborators (the scan engine, the filesystem,
/// notification delivery) are handled at the call sites that talk to them;
/// these variants cover what the library itself decides to reject.
#[derive(Clone, Copy, Debug, PartialEq, Eq, Structural)]
pub enum Error {
    /// A glob exclude pattern failed to compile.
    InvalidPattern,
    /// A preferred-hours value was not `start-end` with exactly one dash.
    InvalidPreferredHours,
    /// One half of a preferred-hours value was not a valid time of day.
    InvalidTimeOfDay,
    /// The preferred-hours window has no positive span, so no scan instant
    /// can be drawn from it.
    EmptyPreferredWindow,
    /// The signature database header ended before all its fields were seen.
    TruncatedHeader,
    /// The timestamp field of the signature database header was not
    /// terminated by a space.
    UnterminatedTimestamp,
    /// The timestamp field of the signature database header was not a number.
    InvalidTimestamp,
    /// The kernel refused to lower this process's I/O priority.
    PriorityNotSet,
}

impl Error {
    /// A short description, for callers that print errors.
    pub fn message(&self) -> &'static str {
        match self {
            Error::InvalidPattern => "invalid exclude pattern",
            Error::InvalidPreferredHours => "preferred hours must be two times separated by one dash",
            Error::InvalidTimeOfDay => "not a valid time of day",
            Error::EmptyPreferredWindow => "preferred hours window is empty",
            Error::TruncatedHeader => "signature database header is truncated",
            Error::UnterminatedTimestamp => "signature database timestamp is unterminated",
            Error::InvalidTimestamp => "signature database timestamp is not a number",
            Error::PriorityNotSet => "failed to set idle I/O priority",
        }
    }
}

} // verus!
