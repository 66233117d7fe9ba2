use vstd::prelude::*;

use crate::clock::SimulationClock;
use crate::error::CoreError;
use crate::movement::{
    command_for, decide_command, next_velocity, step_position, update_position, update_speed,
    Movement, OldPosition, Position, SpeedStats, TrainCommand, Velocity,
};
use crate::schedule::TrainSchedule;
use crate::track::{EnteringSegment, LeavingSegment, Segment, SegmentId, Track, TrainId};

verus! {

/// Safety margin, in length units, used when none is given.
pub const DEFAULT_SAFETY_MARGIN: u32 = 10;

/// A train: its label, schedule, kinematic state, last command and envelope.
pub struct Train {
    /// Label used to tag telemetry outside the core.
    pub name: String,
    pub schedule: TrainSchedule,
    pub position: Position,
    pub old_position: OldPosition,
    pub velocity: Velocity,
    pub command: TrainCommand,
    pub stats: SpeedStats,
    /// The fault that stopped this train, if any; a stopped train no longer
    /// moves.
    pub fault: Option<CoreError>,
}

/// What one tick does to one train, decided from the state at its start.
struct Plan {
    command: TrainCommand,
    velocity: Velocity,
    movement: Movement,
    next: Option<SegmentId>,
    next_free: bool,
}

/// Simulation context: the track with its occupancy, the trains, the start
/// gate, the clock and the safety margin of the control policy.
pub struct Simulation {
    track: Track,
    trains: Vec<Train>,
    started: bool,
    clock: SimulationClock,
    safety_margin: u32,
}

/// Train `k` of `trains` is well formed on `track`.
pub open spec fn train_wf_in(track: Track, trains: Seq<Train>, k: int) -> bool {
    let t = trains[k];
    &&& t.schedule.wf()
    &&& t.schedule.segments_spec().len() <= u32::MAX
    &&& forall|i: int|
        0 <= i < t.schedule.segments_spec().len() ==> track.valid(
            #[trigger] t.schedule.segments_spec()[i],
        )
    &&& t.stats.wf()
    &&& t.velocity.0 <= t.stats.max_speed_spec()
    &&& t.position.0 <= track.length_spec(t.schedule.current_spec()) + t.stats.max_speed_spec()
        * t.schedule.index_spec()
    &&& track.occupant_spec(t.schedule.current_spec()) == Some(TrainId(k as usize))
}

/// All of `trains` are well formed on `track`, and every occupied segment is
/// held by a train whose cursor points at it.
pub open spec fn roster_wf(track: Track, trains: Seq<Train>) -> bool {
    &&& track.wf()
    &&& trains.len() <= usize::MAX
    &&& forall|k: int| 0 <= k < trains.len() ==> #[trigger] train_wf_in(track, trains, k)
    &&& forall|s: SegmentId|
        #![trigger track.occupant_spec(s)]
        track.valid(s) && track.occupant_spec(s) is Some ==> {
            let j = track.occupant_spec(s).unwrap().0 as int;
            0 <= j < trains.len() && trains[j].schedule.current_spec() == s
        }
}

impl Simulation {
    pub closed spec fn track_spec(&self) -> Track {
        self.track
    }

    pub closed spec fn trains_spec(&self) -> Seq<Train> {
        self.trains@
    }

    pub closed spec fn started_spec(&self) -> bool {
        self.started
    }

    pub closed spec fn clock_spec(&self) -> SimulationClock {
        self.clock
    }

    pub closed spec fn margin_spec(&self) -> int {
        self.safety_margin as int
    }

    /// Number of trains.
    pub open spec fn count(&self) -> int {
        self.trains_spec().len() as int
    }

    /// The segment train `k` holds.
    pub open spec fn current_of(&self, k: int) -> SegmentId {
        self.trains_spec()[k].schedule.current_spec()
    }

    /// Length of the segment train `k` holds.
    pub open spec fn length_of(&self, k: int) -> int {
        self.track_spec().length_spec(self.current_of(k))
    }

    /// Well-formedness of train `k` on its own: a valid schedule over known
    /// segments, a valid envelope, a velocity within it, a position bounded
    /// by how far the train can have carried over, and the registry showing
    /// the train on the segment it holds.
    pub open spec fn train_wf(&self, k: int) -> bool {
        train_wf_in(self.track_spec(), self.trains_spec(), k)
    }

    /// Well-formedness: every train is well formed, and every occupied
    /// segment is held by a train whose cursor points at it.
    pub open spec fn wf(&self) -> bool {
        roster_wf(self.track_spec(), self.trains_spec())
    }

    /// The segment after the one train `k` holds, if any.
    pub open spec fn next_of(&self, k: int) -> Option<SegmentId> {
        self.trains_spec()[k].schedule.next_spec()
    }

    /// Whether the segment after the one train `k` holds exists and is free.
    pub open spec fn next_free_of(&self, k: int) -> bool {
        match self.next_of(k) {
            Some(s) => self.track_spec().is_free_spec(s),
            None => false,
        }
    }

    /// The command train `k` receives this tick.
    pub open spec fn command_of(&self, k: int) -> TrainCommand {
        let t = self.trains_spec()[k];
        command_for(
            t.velocity.0 as int,
            t.command,
            t.stats,
            self.length_of(k),
            t.position.0 as int,
            self.next_free_of(k),
            self.margin_spec(),
        )
    }

    /// The velocity of train `k` after this tick.
    pub open spec fn velocity_of(&self, k: int) -> int {
        let t = self.trains_spec()[k];
        next_velocity(t.velocity.0 as int, self.command_of(k), t.stats)
    }

    /// Position, previous position and crossing flag of train `k` after
    /// this tick, before any transfer of occupancy.
    pub open spec fn step_of(&self, k: int) -> (int, int, bool) {
        let t = self.trains_spec()[k];
        step_position(
            t.position.0 as int,
            self.velocity_of(k),
            self.length_of(k),
            self.next_of(k) is Some,
        )
    }

    /// Whether train `k` moves this tick and reaches the end of its segment
    /// with a segment after it.
    pub open spec fn crosses(&self, k: int) -> bool {
        self.trains_spec()[k].fault is None && self.step_of(k).2
    }

    /// Whether train `k` enters its next segment this tick: it crosses, the
    /// segment was free when the tick began, and no train before it in the
    /// roster crosses into the same segment.
    pub open spec fn enters(&self, k: int) -> bool {
        &&& self.crosses(k)
        &&& self.next_free_of(k)
        &&& forall|j: int| 0 <= j < k && #[trigger] self.crosses(j) ==> self.next_of(j) != self.next_of(k)
    }

    /// Decides the command of train `k` and integrates its motion for this
    /// tick, reading only the state at the start of the tick.
    fn plan(&self, k: usize) -> (r: Plan)
        requires
            self.wf(),
            k < self.count(),
        ensures
            r.command == self.command_of(k as int),
            r.velocity.0 == self.velocity_of(k as int),
            (r.movement.position.0 as int, r.movement.old_position.0 as int, r.movement.crossed)
                == self.step_of(k as int),
            r.next == self.next_of(k as int),
            r.next_free == self.next_free_of(k as int),
    {
        let t = &self.trains[k];
        assert(train_wf_in(self.track_spec(), self.trains_spec(), k as int));
        let length = self.track.segment_length(t.schedule.current());
        let next = t.schedule.next();
        let next_free = match next {
            Some(s) => self.track.is_free(s),
            None => false,
        };
        let command = decide_command(
            t.velocity,
            t.command,
            &t.stats,
            length,
            t.position,
            next_free,
            self.safety_margin,
        );
        let velocity = update_speed(t.velocity, &t.stats, command);
        proof {
            let m = t.stats.max_speed_spec();
            let i = t.schedule.index_spec();
            assert(m * i <= 0xffff_ffff * 0xffff_fffe) by (nonlinear_arith)
                requires
                    0 <= m <= 0xffff_ffff,
                    0 <= i <= 0xffff_fffe,
            ;
        }
        let movement = update_position(t.position, velocity, length, next.is_some());
        Plan { command, velocity, movement, next, next_free }
    }

    /// Applies a boundary crossing of train `k`: the segment it leaves is
    /// released, the one it enters is reserved, its cursor advances, and it
    /// takes the carried-over position.
    fn enter_next(&mut self, k: usize, leaving: LeavingSegment, entering: EnteringSegment, position: Position)
        requires
            old(self).wf(),
            k < old(self).count(),
            leaving.train == TrainId(k),
            entering.train == TrainId(k),
            leaving.segment == old(self).current_of(k as int),
            old(self).next_of(k as int) == Some(entering.segment),
            old(self).track_spec().is_free_spec(entering.segment),
            position.0 <= old(self).trains_spec()[k as int].stats.max_speed_spec() * (old(
                self,
            ).trains_spec()[k as int].schedule.index_spec() + 1),
        ensures
            final(self).wf(),
            final(self).track_spec().segments_spec() == old(self).track_spec().segments_spec(),
            final(self).track_spec().occupancy_spec() == old(
                self,
            ).track_spec().occupancy_spec().update(leaving.segment.0 as int, None).update(
                entering.segment.0 as int,
                Some(TrainId(k)),
            ),
            final(self).trains_spec().len() == old(self).trains_spec().len(),
            forall|j: int|
                0 <= j < old(self).count() && j != k ==> final(self).trains_spec()[j] == old(
                    self,
                ).trains_spec()[j],
            ({
                let t = old(self).trains_spec()[k as int];
                let n = final(self).trains_spec()[k as int];
                &&& n.name == t.name
                &&& n.stats == t.stats
                &&& n.command == t.command
                &&& n.velocity == t.velocity
                &&& n.fault == t.fault
                &&& n.schedule.segments_spec() == t.schedule.segments_spec()
                &&& n.schedule.index_spec() == t.schedule.index_spec() + 1
                &&& n.position == position
                &&& n.old_position.0 == 0
            }),
            final(self).started_spec() == old(self).started_spec(),
            final(self).clock_spec() == old(self).clock_spec(),
            final(self).margin_spec() == old(self).margin_spec(),
    {
        assert(train_wf_in(self.track_spec(), self.trains_spec(), k as int));
        let released = self.track.release(leaving.segment, leaving.train);
        let reserved = self.track.reserve(entering.segment, entering.train);
        let mut train = self.trains.remove(k);
        let advanced = train.schedule.advance();
        train.position = position;
        train.old_position = OldPosition(0);
        self.trains.insert(k, train);
        proof {
            let o = old(self);
            let t = o.trains_spec()[k as int];
            let n = self.trains_spec()[k as int];
            assert(self.trains_spec() =~= o.trains_spec().update(k as int, n));
            let m = t.stats.max_speed_spec();
            let i = t.schedule.index_spec();
            assert(m * i + m == m * (i + 1)) by (nonlinear_arith);
            assert(0 <= m * (i + 1)) by (nonlinear_arith)
                requires
                    m >= 0,
                    i >= 0,
            ;
            assert forall|j: int| 0 <= j < self.count() implies #[trigger] train_wf_in(
                self.track_spec(),
                self.trains_spec(),
                j,
            ) by {
                assert(train_wf_in(o.track_spec(), o.trains_spec(), j));
                if j != k {
                    assert(train_wf_in(o.track_spec(), o.trains_spec(), k as int));
                    let c = o.trains_spec()[j].schedule.current_spec();
                    assert(c != leaving.segment);
                    assert(c != entering.segment);
                }
            }
            assert forall|s: SegmentId|
                #![trigger self.track_spec().occupant_spec(s)]
                self.track_spec().valid(s) && self.track_spec().occupant_spec(s) is Some implies {
                let j = self.track_spec().occupant_spec(s).unwrap().0 as int;
                0 <= j < self.count() && self.trains_spec()[j].schedule.current_spec() == s
            } by {
                if s != leaving.segment && s != entering.segment {
                    assert(o.track_spec().occupant_spec(s) == self.track_spec().occupant_spec(s));
                    let j = o.track_spec().occupant_spec(s).unwrap().0 as int;
                    assert(j != k);
                }
            }
        }
    }

    /// Stops train `k` for good at the end of its segment after a fault.
    fn halt(&mut self, k: usize, error: CoreError)
        requires
            old(self).wf(),
            k < old(self).count(),
        ensures
            final(self).wf(),
            final(self).track_spec() == old(self).track_spec(),
            final(self).trains_spec().len() == old(self).trains_spec().len(),
            forall|j: int|
                0 <= j < old(self).count() && j != k ==> final(self).trains_spec()[j] == old(
                    self,
                ).trains_spec()[j],
            ({
                let t = old(self).trains_spec()[k as int];
                let n = final(self).trains_spec()[k as int];
                &&& n.name == t.name
                &&& n.stats == t.stats
                &&& n.command == t.command
                &&& n.schedule == t.schedule
                &&& n.velocity.0 == 0
                &&& n.position.0 == old(self).length_of(k as int)
                &&& n.old_position.0 == t.position.0
                &&& n.fault == Some(error)
            }),
            final(self).started_spec() == old(self).started_spec(),
            final(self).clock_spec() == old(self).clock_spec(),
            final(self).margin_spec() == old(self).margin_spec(),
    {
        assert(train_wf_in(self.track_spec(), self.trains_spec(), k as int));
        let length = self.track.segment_length(self.trains[k].schedule.current());
        let mut train = self.trains.remove(k);
        train.old_position = OldPosition(train.position.0);
        train.position = Position(length as u64);
        train.velocity = Velocity(0);
        train.fault = Some(error);
        self.trains.insert(k, train);
        proof {
            let o = old(self);
            let n = self.trains_spec()[k as int];
            assert(self.trains_spec() =~= o.trains_spec().update(k as int, n));
            let t = o.trains_spec()[k as int];
            let m = t.stats.max_speed_spec();
            let i = t.schedule.index_spec();
            assert(0 <= m * i) by (nonlinear_arith)
                requires
                    m >= 0,
                    i >= 0,
            ;
            assert forall|j: int| 0 <= j < self.count() implies #[trigger] train_wf_in(
                self.track_spec(),
                self.trains_spec(),
                j,
            ) by {
                assert(train_wf_in(o.track_spec(), o.trains_spec(), j));
            }
        }
    }

    /// Whether `n` is what a tick makes of train `k`, `self` being the state
    /// at the start of the tick.
    ///
    /// A stopped train stays as it is. Otherwise the train takes its command
    /// and new velocity, and then: if it does not cross, its new position;
    /// if it enters the next segment, the carried-over position, a previous
    /// position of zero and a cursor one segment further; if it crosses but
    /// may not enter, it is stopped at the end of its segment, with
    /// `InvariantViolation` when the segment was not free at the start of the
    /// tick and `SegmentAlreadyOccupied` when a train before it took it.
    pub open spec fn ticked(&self, k: int, n: Train) -> bool {
        let t = self.trains_spec()[k];
        let step = self.step_of(k);
        &&& n.name == t.name
        &&& n.stats == t.stats
        &&& if t.fault is Some {
            n == t
        } else if !self.crosses(k) {
            &&& n.schedule == t.schedule
            &&& n.command == self.command_of(k)
            &&& n.velocity.0 == self.velocity_of(k)
            &&& n.position.0 == step.0
            &&& n.old_position.0 == step.1
            &&& n.fault is None
        } else if self.enters(k) {
            &&& n.schedule.segments_spec() == t.schedule.segments_spec()
            &&& n.schedule.index_spec() == t.schedule.index_spec() + 1
            &&& n.command == self.command_of(k)
            &&& n.velocity.0 == self.velocity_of(k)
            &&& n.position.0 == step.0
            &&& n.old_position.0 == step.1
            &&& n.fault is None
        } else {
            &&& n.schedule == t.schedule
            &&& n.command == self.command_of(k)
            &&& n.velocity.0 == 0
            &&& n.position.0 == self.length_of(k)
            &&& n.old_position.0 == t.position.0
            &&& n.fault == Some(
                if self.next_free_of(k) {
                    CoreError::SegmentAlreadyOccupied
                } else {
                    CoreError::InvariantViolation
                },
            )
        }
    }

    /// Train `n` after the first part of a tick: its own command, velocity
    /// and, unless it crosses, position updated.
    spec fn moved(&self, k: int, n: Train) -> bool {
        let t = self.trains_spec()[k];
        let step = self.step_of(k);
        &&& n.name == t.name
        &&& n.stats == t.stats
        &&& n.schedule == t.schedule
        &&& n.fault == t.fault
        &&& if t.fault is Some {
            n == t
        } else if !self.crosses(k) {
            &&& n.command == self.command_of(k)
            &&& n.velocity.0 == self.velocity_of(k)
            &&& n.position.0 == step.0
            &&& n.old_position.0 == step.1
        } else {
            &&& n.command == self.command_of(k)
            &&& n.velocity.0 == self.velocity_of(k)
            &&& n.position == t.position
            &&& n.old_position == t.old_position
        }
    }

    spec fn planned(&self, k: int, p: Plan) -> bool {
        &&& p.command == self.command_of(k)
        &&& p.velocity.0 == self.velocity_of(k)
        &&& (p.movement.position.0 as int, p.movement.old_position.0 as int, p.movement.crossed)
            == self.step_of(k)
        &&& p.next == self.next_of(k)
        &&& p.next_free == self.next_free_of(k)
    }

    /// Runs one tick when the start gate is open; does nothing otherwise.
    ///
    /// All trains decide and move from the state at the start of the tick;
    /// the boundary crossings are then applied one train after another, in
    /// roster order, as the only changes of occupancy and cursors.
    pub fn tick(&mut self)
        requires
            old(self).wf(),
        ensures
            final(self).wf(),
            !old(self).started_spec() ==> *final(self) == *old(self),
            old(self).started_spec() ==> {
                &&& final(self).started_spec()
                &&& final(self).margin_spec() == old(self).margin_spec()
                &&& final(self).track_spec().segments_spec() == old(
                    self,
                ).track_spec().segments_spec()
                &&& final(self).trains_spec().len() == old(self).trains_spec().len()
                &&& (forall|k: int|
                    0 <= k < old(self).count() ==> old(self).ticked(
                        k,
                        #[trigger] final(self).trains_spec()[k],
                    ))
                &&& final(self).clock_spec().tick_spec() == old(self).clock_spec().tick_spec()
                &&& (old(self).clock_spec().ticks_spec() < u64::MAX ==> final(self).clock_spec().ticks_spec()
                    == old(self).clock_spec().ticks_spec() + 1)
            },
            final(self).trains_spec().len() == old(self).trains_spec().len(),
            forall|k: int|
                #![trigger final(self).trains_spec()[k]]
                0 <= k < old(self).count() ==> {
                    let t = old(self).trains_spec()[k];
                    let n = final(self).trains_spec()[k];
                    &&& t.schedule.index_spec() <= n.schedule.index_spec() <= t.schedule.index_spec()
                        + 1
                    &&& n.velocity.0 <= n.stats.max_speed_spec()
                    &&& n.schedule.index_spec() > t.schedule.index_spec() ==> {
                        &&& old(self).track_spec().is_free_spec(n.schedule.current_spec())
                        &&& final(self).track_spec().occupant_spec(n.schedule.current_spec())
                            == Some(TrainId(k as usize))
                        &&& n.position.0 == t.position.0 + n.velocity.0 - old(self).length_of(k)
                    }
                },
    {
        if !self.started {
            proof {
                assert forall|k: int| 0 <= k < old(self).count() implies #[trigger] train_wf_in(
                    self.track_spec(),
                    self.trains_spec(),
                    k,
                ) by {}
                assert forall|k: int| 0 <= k < old(self).count() implies (#[trigger] self.trains_spec()[k]).velocity.0
                    <= self.trains_spec()[k].stats.max_speed_spec() by {
                    assert(train_wf_in(self.track_spec(), self.trains_spec(), k));
                }
            }
            return;
        }
        let n = self.trains.len();
        // Control policy and integrator, all from the state at the start.
        let mut plans: Vec<Plan> = Vec::new();
        let mut k: usize = 0;
        while k < n
            invariant
                *self == *old(self),
                self.wf(),
                n == self.count(),
                k <= n,
                plans@.len() == k,
                forall|j: int| 0 <= j < k ==> old(self).planned(j, #[trigger] plans@[j]),
            decreases n - k,
        {
            plans.push(self.plan(k));
            k = k + 1;
        }
        // Each train takes its own new command, velocity and position.
        k = 0;
        while k < n
            invariant
                old(self).wf(),
                self.wf(),
                n == old(self).count(),
                k <= n,
                self.track_spec() == old(self).track_spec(),
                self.started_spec() == old(self).started_spec(),
                self.clock_spec() == old(self).clock_spec(),
                self.margin_spec() == old(self).margin_spec(),
                self.trains_spec().len() == n,
                plans@.len() == n,
                forall|j: int| 0 <= j < n ==> old(self).planned(j, #[trigger] plans@[j]),
                forall|j: int| 0 <= j < k ==> old(self).moved(j, #[trigger] self.trains_spec()[j]),
                forall|j: int|
                    k <= j < n ==> #[trigger] self.trains_spec()[j] == old(self).trains_spec()[j],
            decreases n - k,
        {
            if self.trains[k].fault.is_none() {
                let ghost pre = self.trains_spec();
                let mut train = self.trains.remove(k);
                train.command = plans[k].command;
                train.velocity = plans[k].velocity;
                if !plans[k].movement.crossed {
                    train.position = plans[k].movement.position;
                    train.old_position = plans[k].movement.old_position;
                }
                self.trains.insert(k, train);
                proof {
                    let o = old(self);
                    assert(train_wf_in(o.track_spec(), o.trains_spec(), k as int));
                    let t = o.trains_spec()[k as int];
                    let m = t.stats.max_speed_spec();
                    let i = t.schedule.index_spec();
                    assert(0 <= m * i) by (nonlinear_arith)
                        requires
                            m >= 0,
                            i >= 0,
                    ;
                    assert(self.trains_spec() =~= pre.update(k as int, self.trains_spec()[k as int]));
                    assert forall|j: int| 0 <= j < self.count() implies #[trigger] train_wf_in(
                        self.track_spec(),
                        self.trains_spec(),
                        j,
                    ) by {
                        assert(train_wf_in(self.track_spec(), pre, j));
                    }
                    assert forall|s: SegmentId|
                        #![trigger self.track_spec().occupant_spec(s)]
                        self.track_spec().valid(s) && self.track_spec().occupant_spec(s) is Some implies {
                        let j = self.track_spec().occupant_spec(s).unwrap().0 as int;
                        0 <= j < self.count() && self.trains_spec()[j].schedule.current_spec() == s
                    } by {
                        let j = self.track_spec().occupant_spec(s).unwrap().0 as int;
                        assert(pre[j].schedule == self.trains_spec()[j].schedule);
                    }
                }
            }
            k = k + 1;
        }
        // The deferred crossings, one train after another.
        k = 0;
        while k < n
            invariant
                old(self).wf(),
                self.wf(),
                n == old(self).count(),
                k <= n,
                self.track_spec().segments_spec() == old(self).track_spec().segments_spec(),
                self.started_spec() == old(self).started_spec(),
                self.clock_spec() == old(self).clock_spec(),
                self.margin_spec() == old(self).margin_spec(),
                self.trains_spec().len() == n,
                plans@.len() == n,
                forall|j: int| 0 <= j < n ==> old(self).planned(j, #[trigger] plans@[j]),
                forall|j: int|
                    0 <= j < k ==> old(self).ticked(j, #[trigger] self.trains_spec()[j]),
                forall|j: int|
                    k <= j < n ==> old(self).moved(j, #[trigger] self.trains_spec()[j]),
                forall|s: SegmentId|
                    #![trigger self.track_spec().occupant_spec(s)]
                    old(self).track_spec().is_free_spec(s) ==> (self.track_spec().occupant_spec(s)
                        is None <==> forall|j: int|
                        0 <= j < k && #[trigger] old(self).crosses(j) ==> old(self).next_of(j)
                            != Some(s)),
            decreases n - k,
        {
            let ghost pre_track = self.track_spec();
            let ghost mut entered = false;
            if self.trains[k].fault.is_none() && plans[k].movement.crossed {
                match plans[k].next {
                    Some(target) => {
                        if !plans[k].next_free {
                            self.halt(k, CoreError::InvariantViolation);
                        } else if !self.track.is_free(target) {
                            self.halt(k, CoreError::SegmentAlreadyOccupied);
                        } else {
                            let leaving = LeavingSegment {
                                segment: self.trains[k].schedule.current(),
                                train: TrainId(k),
                            };
                            let entering = EnteringSegment { segment: target, train: TrainId(k) };
                            proof {
                                let t = old(self).trains_spec()[k as int];
                                let m = t.stats.max_speed_spec();
                                let i = t.schedule.index_spec();
                                assert(m * i + m == m * (i + 1)) by (nonlinear_arith);
                                assert(train_wf_in(old(self).track_spec(), old(self).trains_spec(), k as int));
                            }
                            self.enter_next(k, leaving, entering, plans[k].movement.position);
                            proof {
                                entered = true;
                            }
                        }
                    },
                    None => {},
                }
            }
            proof {
                let o = old(self);
                assert(train_wf_in(o.track_spec(), o.trains_spec(), k as int));
                assert forall|s: SegmentId|
                    #![trigger self.track_spec().occupant_spec(s)]
                    o.track_spec().is_free_spec(s) implies (self.track_spec().occupant_spec(s) is None
                        <==> forall|j: int|
                        0 <= j < k + 1 && #[trigger] o.crosses(j) ==> o.next_of(j) != Some(s)) by {
                    assert(pre_track.occupant_spec(s) is None <==> forall|j: int|
                        0 <= j < k && #[trigger] o.crosses(j) ==> o.next_of(j) != Some(s));
                    if o.crosses(k as int) && o.next_of(k as int) == Some(s) {
                        assert(!(forall|j: int|
                            0 <= j < k + 1 && #[trigger] o.crosses(j) ==> o.next_of(j) != Some(s)));
                        if entered {
                            assert(self.track_spec().occupant_spec(s) == Some(TrainId(k)));
                        } else {
                            assert(self.track_spec().occupant_spec(s) is Some);
                        }
                    } else {
                        assert(s != o.current_of(k as int));
                        assert(self.track_spec().occupant_spec(s) == pre_track.occupant_spec(s));
                        assert((forall|j: int|
                            0 <= j < k + 1 && #[trigger] o.crosses(j) ==> o.next_of(j) != Some(s))
                            <==> (forall|j: int|
                            0 <= j < k && #[trigger] o.crosses(j) ==> o.next_of(j) != Some(s)));
                    }
                }
            }
            k = k + 1;
        }
        self.clock.advance();
        proof {
            assert forall|k: int| 0 <= k < old(self).count() implies old(self).ticked(
                k,
                #[trigger] self.trains_spec()[k],
            ) by {}
            assert forall|k: int| 0 <= k < old(self).count() implies #[trigger] train_wf_in(
                self.track_spec(),
                self.trains_spec(),
                k,
            ) by {}
            assert forall|k: int| 0 <= k < old(self).count() implies {
                let t = old(self).trains_spec()[k];
                let n = #[trigger] self.trains_spec()[k];
                &&& t.schedule.index_spec() <= n.schedule.index_spec() <= t.schedule.index_spec() + 1
                &&& n.velocity.0 <= n.stats.max_speed_spec()
                &&& n.schedule.index_spec() > t.schedule.index_spec() ==> {
                    &&& old(self).track_spec().is_free_spec(n.schedule.current_spec())
                    &&& self.track_spec().occupant_spec(n.schedule.current_spec()) == Some(
                        TrainId(k as usize),
                    )
                    &&& n.position.0 == t.position.0 + n.velocity.0 - old(self).length_of(k)
                }
            } by {
                assert(old(self).ticked(k, self.trains_spec()[k]));
                assert(train_wf_in(self.track_spec(), self.trains_spec(), k));
            }
        }
    }

    /// A simulation over `segments`, with no trains, held at rest, its clock
    /// at zero with ticks of `tick_micros` microseconds.
    pub fn new(segments: Vec<Segment>, tick_micros: u64, safety_margin: u32) -> (r: Simulation)
        ensures
            r.wf(),
            r.track_spec().segments_spec() == segments@,
            forall|s: SegmentId| r.track_spec().valid(s) ==> r.track_spec().is_free_spec(s),
            r.trains_spec().len() == 0,
            !r.started_spec(),
            r.clock_spec().ticks_spec() == 0,
            r.clock_spec().tick_spec() == tick_micros,
            r.margin_spec() == safety_margin,
    {
        let track = Track::new(segments);
        Simulation {
            track,
            trains: Vec::new(),
            started: false,
            clock: SimulationClock::new(tick_micros),
            safety_margin,
        }
    }

    /// The track and its occupancy.
    pub fn track(&self) -> (r: &Track)
        ensures
            *r == self.track_spec(),
    {
        &self.track
    }

    /// The trains, indexed by their handles.
    pub fn trains(&self) -> (r: &Vec<Train>)
        ensures
            r@ == self.trains_spec(),
    {
        &self.trains
    }

    /// The simulation clock.
    pub fn clock(&self) -> (r: &SimulationClock)
        ensures
            *r == self.clock_spec(),
    {
        &self.clock
    }

    /// Safety margin of the control policy.
    pub fn safety_margin(&self) -> (r: u32)
        ensures
            r == self.margin_spec(),
    {
        self.safety_margin
    }

    /// Whether the start gate is open.
    pub fn is_started(&self) -> (r: bool)
        ensures
            r == self.started_spec(),
    {
        self.started
    }

    /// Opens or closes the start gate.
    pub fn set_started(&mut self, started: bool)
        requires
            old(self).wf(),
        ensures
            final(self).wf(),
            final(self).started_spec() == started,
            final(self).track_spec() == old(self).track_spec(),
            final(self).trains_spec() == old(self).trains_spec(),
            final(self).clock_spec() == old(self).clock_spec(),
            final(self).margin_spec() == old(self).margin_spec(),
    {
        self.started = started;
    }

    /// Flips the start gate, as a start/pause input does.
    pub fn toggle_started(&mut self)
        requires
            old(self).wf(),
        ensures
            final(self).wf(),
            final(self).started_spec() == !old(self).started_spec(),
            final(self).track_spec() == old(self).track_spec(),
            final(self).trains_spec() == old(self).trains_spec(),
            final(self).clock_spec() == old(self).clock_spec(),
            final(self).margin_spec() == old(self).margin_spec(),
    {
        self.started = !self.started;
    }

    /// Puts a new train at rest at the start of segment `segments[start]`,
    /// registered as its occupant, and returns its handle.
    ///
    /// Fails, changing nothing, with `ScheduleExhausted` when `start` is not
    /// an index of `segments`, with `InvalidHandle` when a scheduled segment
    /// is not on the track, and with `SegmentAlreadyOccupied` when another
    /// train holds the starting segment.
    pub fn add_train(
        &mut self,
        name: String,
        segments: Vec<SegmentId>,
        start: usize,
        stats: SpeedStats,
    ) -> (r: Result<TrainId, CoreError>)
        requires
            old(self).wf(),
            stats.wf(),
            segments@.len() <= u32::MAX,
        ensures
            final(self).wf(),
            final(self).started_spec() == old(self).started_spec(),
            final(self).clock_spec() == old(self).clock_spec(),
            final(self).margin_spec() == old(self).margin_spec(),
            final(self).track_spec().segments_spec() == old(self).track_spec().segments_spec(),
            start >= segments@.len() ==> r == Err::<TrainId, CoreError>(
                CoreError::ScheduleExhausted,
            ),
            start < segments@.len() && (exists|i: int|
                0 <= i < segments@.len() && !old(self).track_spec().valid(
                    #[trigger] segments@[i],
                )) ==> r == Err::<TrainId, CoreError>(CoreError::InvalidHandle),
            start < segments@.len() && (forall|i: int|
                0 <= i < segments@.len() ==> old(self).track_spec().valid(#[trigger] segments@[i]))
                ==> {
                if old(self).track_spec().is_free_spec(segments@[start as int]) {
                    r == Ok::<TrainId, CoreError>(TrainId(old(self).trains_spec().len() as usize))
                } else {
                    r == Err::<TrainId, CoreError>(CoreError::SegmentAlreadyOccupied)
                }
            },
            r is Err ==> *final(self) == *old(self),
            r is Ok ==> {
                let t = final(self).trains_spec().last();
                &&& final(self).trains_spec().drop_last() == old(self).trains_spec()
                &&& t.name == name
                &&& t.schedule.segments_spec() == segments@
                &&& t.schedule.index_spec() == start
                &&& t.position.0 == 0
                &&& t.old_position.0 == 0
                &&& t.velocity.0 == 0
                &&& t.command == TrainCommand::Hold
                &&& t.stats == stats
                &&& t.fault is None
                &&& final(self).track_spec().occupancy_spec() == old(
                    self,
                ).track_spec().occupancy_spec().update(
                    segments@[start as int].0 as int,
                    Some(TrainId(old(self).trains_spec().len() as usize)),
                )
            },
    {
        if start >= segments.len() {
            return Err(CoreError::ScheduleExhausted);
        }
        let mut i: usize = 0;
        while i < segments.len()
            invariant
                i <= segments@.len(),
                start < segments@.len(),
                *self == *old(self),
                self.wf(),
                forall|j: int| 0 <= j < i ==> self.track_spec().valid(#[trigger] segments@[j]),
            decreases segments@.len() - i,
        {
            if segments[i].0 >= self.track.len() {
                return Err(CoreError::InvalidHandle);
            }
            i = i + 1;
        }
        let first = segments[start];
        if !self.track.is_free(first) {
            return Err(CoreError::SegmentAlreadyOccupied);
        }
        let id = TrainId(self.trains.len());
        let reserved = self.track.reserve(first, id);
        let schedule = match TrainSchedule::new(segments, start) {
            Ok(s) => s,
            Err(e) => {
                return Err(e);
            },
        };
        let ghost old_count = self.trains@.len();
        self.trains.push(
            Train {
                name,
                schedule,
                position: Position(0),
                old_position: OldPosition(0),
                velocity: Velocity(0),
                command: TrainCommand::Hold,
                stats,
                fault: None,
            },
        );
        proof {
            assert(self.trains.len() == self.trains@.len());
            assert(self.trains_spec().drop_last() =~= old(self).trains_spec());
            assert forall|k: int| 0 <= k < self.count() implies #[trigger] train_wf_in(
                self.track_spec(),
                self.trains_spec(),
                k,
            ) by {
                if k == old_count {
                    assert(self.track_spec().occupant_spec(first) == Some(id));
                    assert(self.trains_spec()[k].schedule.current_spec() == first);
                    assert(self.train_wf(k));
                } else {
                    assert(old(self).train_wf(k));
                    assert(self.trains_spec()[k] == old(self).trains_spec()[k]);
                    assert(self.trains_spec()[k].schedule.current_spec() != first) by {
                        assert(old(self).track_spec().occupant_spec(old(self).current_of(k))
                            == Some(TrainId(k as usize)));
                    }
                }
            }
            assert forall|s: SegmentId|
                #![trigger self.track_spec().occupant_spec(s)]
                self.track_spec().valid(s) && self.track_spec().occupant_spec(s) is Some implies {
                let j = self.track_spec().occupant_spec(s).unwrap().0 as int;
                0 <= j < self.count() && self.trains_spec()[j].schedule.current_spec() == s
            } by {
                if s != first {
                    assert(old(self).track_spec().occupant_spec(s) == self.track_spec().occupant_spec(s));
                }
            }
        }
        Ok(id)
    }
}

/// Mutual exclusion: in a well-formed simulation the segment a train's
/// cursor points at has that train as its registered occupant, so no two
/// trains' cursors point at the same segment.
pub proof fn lemma_mutual_exclusion(sim: Simulation, k1: int, k2: int)
    requires
        sim.wf(),
        0 <= k1 < sim.count(),
        0 <= k2 < sim.count(),
    ensures
        sim.track_spec().occupant_spec(sim.current_of(k1)) == Some(TrainId(k1 as usize)),
        sim.current_of(k1) == sim.current_of(k2) ==> k1 == k2,
{
    assert(train_wf_in(sim.track_spec(), sim.trains_spec(), k1));
    assert(train_wf_in(sim.track_spec(), sim.trains_spec(), k2));
}

} // verus!
