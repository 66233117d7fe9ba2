use vstd::prelude::*;

use crate::error::CoreError;

verus! {

/// Stable handle of a track segment: its index in the track.
#[derive(Clone, Copy, Debug, PartialEq, Eq, Structural)]
pub struct SegmentId(pub usize);

/// Stable handle of a train: its index in the simulation's roster.
#[derive(Clone, Copy, Debug, PartialEq, Eq, Structural)]
pub struct TrainId(pub usize);

/// A track segment, seen by the core as a path of a given length.
#[derive(Clone, Copy, Debug, PartialEq, Eq, Structural)]
pub struct Segment {
    pub length: u32,
}

/// Occupancy of one segment: the train that holds it, if any.
#[derive(Clone, Copy, Debug, PartialEq, Eq, Structural)]
pub struct SegmentTrain(pub Option<TrainId>);

/// The segments of a line in running order.
pub struct ConsecutiveLines(pub Vec<SegmentId>);

/// Notification that a train has left a segment.
#[derive(Clone, Copy, Debug, PartialEq, Eq, Structural)]
pub struct LeavingSegment {
    pub segment: SegmentId,
    pub train: TrainId,
}

/// Notification that a train has entered a segment.
#[derive(Clone, Copy, Debug, PartialEq, Eq, Structural)]
pub struct EnteringSegment {
    pub segment: SegmentId,
    pub train: TrainId,
}

/// The track topology together with its occupancy registry.
///
/// Segment lengths never change. Occupancy changes only through `reserve`
/// and `release`, which defend the rule that a segment has at most one
/// occupant.
pub struct Track {
    segments: Vec<Segment>,
    occupancy: Vec<SegmentTrain>,
}

impl Track {
    /// The segments, indexed by their handles.
    pub closed spec fn segments_spec(&self) -> Seq<Segment> {
        self.segments@
    }

    /// The occupant of each segment, indexed by segment handle.
    pub closed spec fn occupancy_spec(&self) -> Seq<Option<TrainId>> {
        self.occupancy@.map_values(|t: SegmentTrain| t.0)
    }

    /// Number of segments.
    pub open spec fn len_spec(&self) -> nat {
        self.segments_spec().len()
    }

    /// Whether `s` names a segment of this track.
    pub open spec fn valid(&self, s: SegmentId) -> bool {
        s.0 < self.len_spec()
    }

    /// Length of segment `s`.
    pub open spec fn length_spec(&self, s: SegmentId) -> int {
        self.segments_spec()[s.0 as int].length as int
    }

    /// Occupant of segment `s`.
    pub open spec fn occupant_spec(&self, s: SegmentId) -> Option<TrainId> {
        self.occupancy_spec()[s.0 as int]
    }

    /// Whether segment `s` exists and nobody holds it.
    pub open spec fn is_free_spec(&self, s: SegmentId) -> bool {
        self.valid(s) && self.occupant_spec(s) is None
    }

    /// One occupancy entry per segment.
    pub open spec fn wf(&self) -> bool {
        self.occupancy_spec().len() == self.len_spec()
    }

    /// A track of the given segments, all of them free.
    pub fn new(segments: Vec<Segment>) -> (r: Track)
        ensures
            r.wf(),
            r.segments_spec() == segments@,
            forall|i: int| 0 <= i < segments@.len() ==> r.occupancy_spec()[i] is None,
    {
        let mut occupancy: Vec<SegmentTrain> = Vec::new();
        let mut i: usize = 0;
        while i < segments.len()
            invariant
                i <= segments@.len(),
                occupancy@.len() == i,
                forall|j: int| 0 <= j < i ==> occupancy@[j].0 is None,
            decreases segments@.len() - i,
        {
            occupancy.push(SegmentTrain(None));
            i = i + 1;
        }
        Track { segments, occupancy }
    }

    /// Number of segments.
    pub fn len(&self) -> (r: usize)
        ensures
            r == self.len_spec(),
    {
        self.segments.len()
    }

    /// Handles of all segments, in order.
    pub fn lines(&self) -> (r: ConsecutiveLines)
        ensures
            r.0@.len() == self.len_spec(),
            forall|i: int| 0 <= i < r.0@.len() ==> r.0@[i] == SegmentId(i as usize),
    {
        let mut ids: Vec<SegmentId> = Vec::new();
        let mut i: usize = 0;
        while i < self.segments.len()
            invariant
                i <= self.len_spec(),
                ids@.len() == i,
                forall|j: int| 0 <= j < i ==> ids@[j] == SegmentId(j as usize),
            decreases self.len_spec() - i,
        {
            ids.push(SegmentId(i));
            i = i + 1;
        }
        ConsecutiveLines(ids)
    }

    /// The occupancy of every segment, indexed by segment handle.
    pub fn segment_trains(&self) -> (r: &Vec<SegmentTrain>)
        ensures
            r@.len() == self.occupancy_spec().len(),
            forall|i: int| 0 <= i < r@.len() ==> r@[i].0 == self.occupancy_spec()[i],
    {
        &self.occupancy
    }

    /// Length of segment `s`; `InvalidHandle` if there is no such segment.
    pub fn length_of(&self, s: SegmentId) -> (r: Result<u32, CoreError>)
        ensures
            self.valid(s) ==> r == Ok::<u32, CoreError>(self.segments_spec()[s.0 as int].length),
            !self.valid(s) ==> r == Err::<u32, CoreError>(CoreError::InvalidHandle),
    {
        if s.0 < self.segments.len() {
            Ok(self.segments[s.0].length)
        } else {
            Err(CoreError::InvalidHandle)
        }
    }

    /// Length of segment `s`, which must exist.
    pub fn segment_length(&self, s: SegmentId) -> (r: u32)
        requires
            self.valid(s),
        ensures
            r == self.length_spec(s),
    {
        self.segments[s.0].length
    }

    /// Occupant of segment `s`; `InvalidHandle` if there is no such segment.
    pub fn occupant_of(&self, s: SegmentId) -> (r: Result<Option<TrainId>, CoreError>)
        requires
            self.wf(),
        ensures
            self.valid(s) ==> r == Ok::<Option<TrainId>, CoreError>(self.occupant_spec(s)),
            !self.valid(s) ==> r == Err::<Option<TrainId>, CoreError>(CoreError::InvalidHandle),
    {
        if s.0 < self.segments.len() {
            Ok(self.occupancy[s.0].0)
        } else {
            Err(CoreError::InvalidHandle)
        }
    }

    /// Whether segment `s` exists and nobody holds it.
    pub fn is_free(&self, s: SegmentId) -> (r: bool)
        requires
            self.wf(),
        ensures
            r == self.is_free_spec(s),
    {
        s.0 < self.segments.len() && self.occupancy[s.0].0.is_none()
    }

    /// Clears the occupancy of `s`, which `train` must hold.
    ///
    /// Fails with `InvalidHandle` for an unknown segment and with
    /// `InvariantViolation` when `train` is not the occupant; on failure
    /// nothing changes.
    pub fn release(&mut self, s: SegmentId, train: TrainId) -> (r: Result<(), CoreError>)
        requires
            old(self).wf(),
        ensures
            final(self).wf(),
            final(self).segments_spec() == old(self).segments_spec(),
            !old(self).valid(s) ==> r == Err::<(), CoreError>(CoreError::InvalidHandle),
            old(self).valid(s) && old(self).occupant_spec(s) != Some(train) ==> r == Err::<
                (),
                CoreError,
            >(CoreError::InvariantViolation),
            r is Err ==> final(self).occupancy_spec() == old(self).occupancy_spec(),
            old(self).valid(s) && old(self).occupant_spec(s) == Some(train) ==> r is Ok
                && final(self).occupancy_spec() == old(self).occupancy_spec().update(
                s.0 as int,
                None,
            ),
    {
        if s.0 >= self.segments.len() {
            return Err(CoreError::InvalidHandle);
        }
        if self.occupancy[s.0].0 != Some(train) {
            return Err(CoreError::InvariantViolation);
        }
        self.occupancy.set(s.0, SegmentTrain(None));
        proof {
            assert(self.occupancy_spec() =~= old(self).occupancy_spec().update(s.0 as int, None));
        }
        Ok(())
    }

    /// Makes `train` the occupant of `s`.
    ///
    /// Fails with `InvalidHandle` for an unknown segment and with
    /// `SegmentAlreadyOccupied` when another train holds it; on failure
    /// nothing changes. Reserving a segment one already holds succeeds.
    pub fn reserve(&mut self, s: SegmentId, train: TrainId) -> (r: Result<(), CoreError>)
        requires
            old(self).wf(),
        ensures
            final(self).wf(),
            final(self).segments_spec() == old(self).segments_spec(),
            !old(self).valid(s) ==> r == Err::<(), CoreError>(CoreError::InvalidHandle),
            old(self).valid(s) && old(self).occupant_spec(s) is Some && old(self).occupant_spec(s)
                != Some(train) ==> r == Err::<(), CoreError>(CoreError::SegmentAlreadyOccupied),
            r is Err ==> final(self).occupancy_spec() == old(self).occupancy_spec(),
            old(self).valid(s) && (old(self).occupant_spec(s) is None || old(self).occupant_spec(s)
                == Some(train)) ==> r is Ok && final(self).occupancy_spec() == old(
                self,
            ).occupancy_spec().update(s.0 as int, Some(train)),
    {
        if s.0 >= self.segments.len() {
            return Err(CoreError::InvalidHandle);
        }
        match self.occupancy[s.0].0 {
            Some(other) => {
                if other != train {
                    return Err(CoreError::SegmentAlreadyOccupied);
                }
            },
            None => {},
        }
        self.occupancy.set(s.0, SegmentTrain(Some(train)));
        proof {
            assert(self.occupancy_spec() =~= old(self).occupancy_spec().update(
                s.0 as int,
                Some(train),
            ));
        }
        Ok(())
    }
}

} // verus!
