use vstd::prelude::*;

verus! {

/// Faults that the core can detect.
#[derive(Clone, Copy, Debug, PartialEq, Eq, Structural)]
pub enum CoreError {
    /// A logic bug: a segment released by a train that does not hold it,
    /// or a train about to advance into a segment that another train holds.
    InvariantViolation,
    /// An attempt to advance past the last segment of a schedule.
    ScheduleExhausted,
    /// A handle that names no registered segment or train.
    InvalidHandle,
    /// A reservation of a segment that another train holds.
    SegmentAlreadyOccupied,
}

} // verus!
