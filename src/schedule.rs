use vstd::prelude::*;

use crate::error::CoreError;
use crate::track::SegmentId;

verus! {

/// The ordered list of segments a train runs through, and a cursor on the
/// segment it currently holds.
///
/// The cursor only ever moves forward, one segment at a time.
pub struct TrainSchedule {
    segments: Vec<SegmentId>,
    current_segment: usize,
}

impl TrainSchedule {
    /// The scheduled segments, in order.
    pub closed spec fn segments_spec(&self) -> Seq<SegmentId> {
        self.segments@
    }

    /// Index of the segment currently held.
    pub closed spec fn index_spec(&self) -> nat {
        self.current_segment as nat
    }

    /// The cursor points into the list.
    pub open spec fn wf(&self) -> bool {
        self.index_spec() < self.segments_spec().len()
    }

    /// The segment the cursor points at.
    pub open spec fn current_spec(&self) -> SegmentId {
        self.segments_spec()[self.index_spec() as int]
    }

    /// Whether the cursor is on the last scheduled segment.
    pub open spec fn at_end_spec(&self) -> bool {
        self.index_spec() + 1 >= self.segments_spec().len()
    }

    /// The segment after the current one, if any.
    pub open spec fn next_spec(&self) -> Option<SegmentId> {
        if self.index_spec() + 1 < self.segments_spec().len() {
            Some(self.segments_spec()[self.index_spec() + 1int])
        } else {
            None
        }
    }

    /// A schedule over `segments` whose cursor starts at `start`.
    pub fn new(segments: Vec<SegmentId>, start: usize) -> (r: Result<TrainSchedule, CoreError>)
        ensures
            start < segments@.len() <==> r is Ok,
            r is Err ==> r == Err::<TrainSchedule, CoreError>(CoreError::ScheduleExhausted),
            r matches Ok(s) ==> s.segments_spec() == segments@ && s.index_spec() == start,
    {
        if start < segments.len() {
            Ok(TrainSchedule { segments, current_segment: start })
        } else {
            Err(CoreError::ScheduleExhausted)
        }
    }

    /// The scheduled segments, in order.
    pub fn segments(&self) -> (r: &Vec<SegmentId>)
        ensures
            r@ == self.segments_spec(),
    {
        &self.segments
    }

    /// Index of the segment currently held.
    pub fn current_index(&self) -> (r: usize)
        ensures
            r == self.index_spec(),
    {
        self.current_segment
    }

    /// The segment after the current one, or `None` at the end of the schedule.
    pub fn next(&self) -> (r: Option<SegmentId>)
        ensures
            r == self.next_spec(),
    {
        if self.current_segment < self.segments.len() && self.segments.len() - self.current_segment
            > 1 {
            Some(self.segments[self.current_segment + 1])
        } else {
            None
        }
    }

    /// The segment before the current one, or `None` at the start of the schedule.
    pub fn previous(&self) -> (r: Option<SegmentId>)
        requires
            self.wf(),
        ensures
            self.index_spec() == 0 ==> r is None,
            self.index_spec() > 0 ==> r == Some(self.segments_spec()[self.index_spec() - 1int]),
    {
        if self.current_segment > 0 {
            Some(self.segments[self.current_segment - 1])
        } else {
            None
        }
    }

    /// The segment the cursor points at.
    pub fn current(&self) -> (r: SegmentId)
        requires
            self.wf(),
        ensures
            r == self.current_spec(),
    {
        self.segments[self.current_segment]
    }

    /// Moves the cursor one segment forward.
    ///
    /// Fails with `ScheduleExhausted`, leaving the schedule unchanged, when
    /// the cursor is already on the last segment.
    pub fn advance(&mut self) -> (r: Result<(), CoreError>)
        requires
            old(self).wf(),
        ensures
            final(self).wf(),
            final(self).segments_spec() == old(self).segments_spec(),
            old(self).at_end_spec() <==> r is Err,
            r is Err ==> r == Err::<(), CoreError>(CoreError::ScheduleExhausted) && *final(self)
                == *old(self),
            r is Ok ==> final(self).index_spec() == old(self).index_spec() + 1,
    {
        if self.segments.len() - self.current_segment > 1 {
            self.current_segment = self.current_segment + 1;
            Ok(())
        } else {
            Err(CoreError::ScheduleExhausted)
        }
    }
}

} // verus!
