use vstd::prelude::*;

verus! {

/// Distance travelled along the current segment.
#[derive(Clone, Copy, Debug, PartialEq, Eq, Structural)]
pub struct Position(pub u64);

/// Position at the start of the last tick, kept for display interpolation.
#[derive(Clone, Copy, Debug, PartialEq, Eq, Structural)]
pub struct OldPosition(pub u64);

/// Speed in length units per tick; trains never reverse.
#[derive(Clone, Copy, Debug, PartialEq, Eq, Structural)]
pub struct Velocity(pub u32);

/// What a train does during the next tick.
#[derive(Clone, Copy, Debug, PartialEq, Eq, Structural)]
pub enum TrainCommand {
    Accelerate,
    Hold,
    Brake,
    /// A given acceleration, in velocity units per tick (negative slows down).
    Custom(i32),
}

/// The performance envelope of a train, all values positive.
#[derive(Clone, Copy, Debug, PartialEq, Eq, Structural)]
pub struct SpeedStats {
    acceleration: u32,
    brake_speed: u32,
    max_speed: u32,
}

impl SpeedStats {
    pub closed spec fn acceleration_spec(&self) -> int {
        self.acceleration as int
    }

    pub closed spec fn brake_spec(&self) -> int {
        self.brake_speed as int
    }

    pub closed spec fn max_speed_spec(&self) -> int {
        self.max_speed as int
    }

    /// Every value of the envelope is positive (and fits in a `u32`).
    pub open spec fn wf(&self) -> bool {
        &&& 0 < self.acceleration_spec() <= u32::MAX
        &&& 0 < self.brake_spec() <= u32::MAX
        &&& 0 < self.max_speed_spec() <= u32::MAX
    }

    /// An envelope with the given acceleration, braking deceleration and top speed.
    pub fn new(acceleration: u32, brake_speed: u32, max_speed: u32) -> (r: SpeedStats)
        requires
            acceleration > 0,
            brake_speed > 0,
            max_speed > 0,
        ensures
            r.wf(),
            r.acceleration_spec() == acceleration,
            r.brake_spec() == brake_speed,
            r.max_speed_spec() == max_speed,
    {
        SpeedStats { acceleration, brake_speed, max_speed }
    }

    pub fn acceleration(&self) -> (r: u32)
        ensures
            r == self.acceleration_spec(),
    {
        self.acceleration
    }

    pub fn brake_speed(&self) -> (r: u32)
        ensures
            r == self.brake_spec(),
    {
        self.brake_speed
    }

    pub fn max_speed(&self) -> (r: u32)
        ensures
            r == self.max_speed_spec(),
    {
        self.max_speed
    }
}

/// Acceleration that `cmd` applies under envelope `stats`.
pub open spec fn acceleration_of(cmd: TrainCommand, stats: SpeedStats) -> int {
    match cmd {
        TrainCommand::Accelerate => stats.acceleration_spec(),
        TrainCommand::Hold => 0,
        TrainCommand::Brake => -stats.brake_spec(),
        TrainCommand::Custom(a) => a as int,
    }
}

/// `x` limited to the range `[lo, hi]`.
pub open spec fn clamp(x: int, lo: int, hi: int) -> int {
    if x < lo {
        lo
    } else if x > hi {
        hi
    } else {
        x
    }
}

/// Velocity after one tick under `cmd`: the acceleration applied, then
/// limited to `[0, max_speed]`.
pub open spec fn next_velocity(v: int, cmd: TrainCommand, stats: SpeedStats) -> int {
    clamp(v + acceleration_of(cmd, stats), 0, stats.max_speed_spec())
}

impl TrainCommand {
    /// Acceleration this command applies under `speed_stats`.
    pub fn acceleration(&self, speed_stats: &SpeedStats) -> (r: i64)
        ensures
            r == acceleration_of(*self, *speed_stats),
    {
        match self {
            TrainCommand::Accelerate => speed_stats.acceleration as i64,
            TrainCommand::Hold => 0,
            TrainCommand::Brake => -(speed_stats.brake_speed as i64),
            TrainCommand::Custom(acc) => *acc as i64,
        }
    }
}

/// Applies `command` to `velocity` for one tick.
pub fn update_speed(velocity: Velocity, speed_stats: &SpeedStats, command: TrainCommand) -> (r:
    Velocity)
    ensures
        r.0 == next_velocity(velocity.0 as int, command, *speed_stats),
        r.0 <= speed_stats.max_speed_spec(),
{
    let v: i64 = velocity.0 as i64 + command.acceleration(speed_stats);
    if v < 0 {
        Velocity(0)
    } else if v > speed_stats.max_speed as i64 {
        Velocity(speed_stats.max_speed)
    } else {
        Velocity(v as u32)
    }
}

/// Outcome of moving a train along its segment for one tick.
#[derive(Clone, Copy, Debug, PartialEq, Eq, Structural)]
pub struct Movement {
    pub position: Position,
    pub old_position: OldPosition,
    /// Whether the train crossed into the next segment.
    pub crossed: bool,
}

/// Position, previous position and crossing flag after one tick, for a
/// train at `pos` moving at `v` on a segment of length `len`.
///
/// Below the segment end the train simply moves on. At or past it, the
/// train crosses into the next segment keeping the distance beyond the
/// boundary, or, with no next segment, stops at the end.
pub open spec fn step_position(pos: int, v: int, len: int, has_next: bool) -> (int, int, bool) {
    let candidate = pos + v;
    if candidate < len {
        (candidate, pos, false)
    } else if has_next {
        (candidate - len, 0, true)
    } else {
        (len, pos, false)
    }
}

/// Moves a train at `position` with `velocity` for one tick along a segment
/// of length `segment_length`; `has_next` tells whether a segment follows.
pub fn update_position(position: Position, velocity: Velocity, segment_length: u32, has_next: bool) -> (r:
    Movement)
    requires
        position.0 + velocity.0 <= u64::MAX,
    ensures
        (r.position.0 as int, r.old_position.0 as int, r.crossed) == step_position(
            position.0 as int,
            velocity.0 as int,
            segment_length as int,
            has_next,
        ),
{
    let candidate: u64 = position.0 + velocity.0 as u64;
    if candidate < segment_length as u64 {
        Movement { position: Position(candidate), old_position: OldPosition(position.0), crossed: false }
    } else if has_next {
        Movement {
            position: Position(candidate - segment_length as u64),
            old_position: OldPosition(0),
            crossed: true,
        }
    } else {
        Movement {
            position: Position(segment_length as u64),
            old_position: OldPosition(position.0),
            crossed: false,
        }
    }
}

/// Whether a train must brake when the next segment is not free.
///
/// `v` is the velocity, `dv` the velocity change of the previous command
/// over one tick, `b` the braking deceleration and `remaining` the distance
/// left in the segment. The braking distance is `(v + dv)^2 / (2 b)`; the
/// train brakes when the distance left after one more tick is within that
/// distance plus `margin`, or when the remaining distance itself is within
/// `margin`. Both sides of the first comparison are multiplied by `2 b`.
pub open spec fn brake_required(v: int, dv: int, b: int, remaining: int, margin: int) -> bool {
    2 * b * (remaining - v - dv) <= (v + dv) * (v + dv) + 2 * b * margin || remaining <= margin
}

/// The command a train receives: `Accelerate` when the next segment is free,
/// otherwise `Brake` when braking is required and `Accelerate` when not.
pub open spec fn command_for(
    v: int,
    previous: TrainCommand,
    stats: SpeedStats,
    segment_length: int,
    pos: int,
    next_free: bool,
    margin: int,
) -> TrainCommand {
    if next_free {
        TrainCommand::Accelerate
    } else if brake_required(
        v,
        acceleration_of(previous, stats),
        stats.brake_spec(),
        segment_length - pos,
        margin,
    ) {
        TrainCommand::Brake
    } else {
        TrainCommand::Accelerate
    }
}

/// Decides the command of a train for this tick.
///
/// `previous` is the command of the last tick, used to look one tick ahead;
/// `next_free` tells whether the next segment exists and is free.
pub fn decide_command(
    velocity: Velocity,
    previous: TrainCommand,
    speed_stats: &SpeedStats,
    segment_length: u32,
    position: Position,
    next_free: bool,
    safety_margin: u32,
) -> (r: TrainCommand)
    requires
        speed_stats.wf(),
    ensures
        r == command_for(
            velocity.0 as int,
            previous,
            *speed_stats,
            segment_length as int,
            position.0 as int,
            next_free,
            safety_margin as int,
        ),
{
    if next_free {
        return TrainCommand::Accelerate;
    }
    let v: i128 = velocity.0 as i128;
    let dv: i128 = previous.acceleration(speed_stats) as i128;
    let b: i128 = speed_stats.brake_speed as i128;
    let remaining: i128 = segment_length as i128 - position.0 as i128;
    let margin: i128 = safety_margin as i128;
    let w: i128 = v + dv;
    let ahead: i128 = remaining - v - dv;
    proof {
        assert(-0x1_0000_0000 <= dv <= 0x1_0000_0000);
        assert(0 <= w * w <= 0x4_0000_0000_0000_0000) by (nonlinear_arith)
            requires
                -0x2_0000_0000 <= w <= 0x2_0000_0000,
        ;
        assert(-0x10_0000_0000_0000_0000_0000_0000 <= 2 * b * ahead <= 0x10_0000_0000_0000_0000_0000_0000)
            by (nonlinear_arith)
            requires
                0 <= b <= 0x1_0000_0000,
                -0x1_0000_0002_0000_0000 <= ahead <= 0x2_0000_0000,
        ;
        assert(0 <= 2 * b * margin <= 0x2_0000_0000_0000_0000) by (nonlinear_arith)
            requires
                0 <= b <= 0x1_0000_0000,
                0 <= margin <= 0x1_0000_0000,
        ;
    }
    if 2 * b * ahead <= w * w + 2 * b * margin || remaining <= margin {
        TrainCommand::Brake
    } else {
        TrainCommand::Accelerate
    }
}

/// Position and velocity after `k` ticks of braking from position `pos` and
/// velocity `v` on a segment of length `len` that has a successor.
pub open spec fn braking_run(pos: int, v: int, stats: SpeedStats, len: int, k: nat) -> (int, int)
    decreases k,
{
    if k == 0 {
        (pos, v)
    } else {
        let before = braking_run(pos, v, stats, len, (k - 1) as nat);
        let w = next_velocity(before.1, TrainCommand::Brake, stats);
        (step_position(before.0, w, len, true).0, w)
    }
}

/// Number of braking ticks that bring velocity `v` down to zero.
pub open spec fn ticks_to_stop(v: int, b: int) -> nat {
    ((v + b - 1) / b) as nat
}

proof fn lemma_braking_run(pos: int, v: int, stats: SpeedStats, len: int, k: nat)
    requires
        stats.wf(),
        0 <= v <= stats.max_speed_spec(),
        pos < len,
        2 * stats.brake_spec() * (len - pos) >= v * v,
    ensures
        braking_run(pos, v, stats, len, k).1 == (if v - k * stats.brake_spec() > 0 {
            v - k * stats.brake_spec()
        } else {
            0
        }),
        braking_run(pos, v, stats, len, k).0 < len,
        2 * stats.brake_spec() * (len - braking_run(pos, v, stats, len, k).0) >= braking_run(
            pos,
            v,
            stats,
            len,
            k,
        ).1 * braking_run(pos, v, stats, len, k).1,
    decreases k,
{
    if k > 0 {
        let k1 = (k - 1) as nat;
        lemma_braking_run(pos, v, stats, len, k1);
        let b = stats.brake_spec();
        let p = braking_run(pos, v, stats, len, k1).0;
        let w = braking_run(pos, v, stats, len, k1).1;
        assert(k1 * b + b == k * b) by (nonlinear_arith)
            requires
                k1 + 1 == k,
        ;
        if w - b > 0 {
            let w2 = w - b;
            assert(2 * b * (len - p) >= w2 * w2 + 2 * b * w2 + b * b) by (nonlinear_arith)
                requires
                    2 * b * (len - p) >= w * w,
                    w == w2 + b,
            ;
            assert(len - p > w2) by (nonlinear_arith)
                requires
                    2 * b * (len - p) >= w2 * w2 + 2 * b * w2 + b * b,
                    b > 0,
                    w2 > 0,
            ;
            assert(2 * b * (len - (p + w2)) >= w2 * w2) by (nonlinear_arith)
                requires
                    2 * b * (len - p) >= w2 * w2 + 2 * b * w2 + b * b,
            ;
        }
    }
}

/// Braking sufficiency: a train whose next segment is not free and which is
/// within braking distance plus `margin` of the segment end receives
/// `Brake`; and if the segment still holds at least the braking distance
/// `v^2 / (2 b)`, braking for `ceil(v / b)` ticks brings the train to a stop
/// while it stays short of the segment end at every tick.
pub proof fn lemma_braking_sufficiency(
    stats: SpeedStats,
    len: int,
    pos: int,
    v: int,
    previous: TrainCommand,
    margin: int,
)
    requires
        stats.wf(),
        0 <= v <= stats.max_speed_spec(),
        0 <= pos < len,
        brake_required(v, acceleration_of(previous, stats), stats.brake_spec(), len - pos, margin),
        2 * stats.brake_spec() * (len - pos) >= v * v,
    ensures
        command_for(v, previous, stats, len, pos, false, margin) == TrainCommand::Brake,
        braking_run(pos, v, stats, len, ticks_to_stop(v, stats.brake_spec())).1 == 0,
        forall|k: nat|
            k <= ticks_to_stop(v, stats.brake_spec()) ==> #[trigger] braking_run(
                pos,
                v,
                stats,
                len,
                k,
            ).0 < len,
{
    let b = stats.brake_spec();
    let n = ticks_to_stop(v, b);
    lemma_braking_run(pos, v, stats, len, n);
    vstd::arithmetic::div_mod::lemma_fundamental_div_mod(v + b - 1, b);
    vstd::arithmetic::div_mod::lemma_mod_bound(v + b - 1, b);
    assert(n * b >= v) by (nonlinear_arith)
        requires
            v + b - 1 == b * ((v + b - 1) / b) + (v + b - 1) % b,
            (v + b - 1) % b < b,
            n == (v + b - 1) / b,
    ;
    assert forall|k: nat| k <= n implies #[trigger] braking_run(pos, v, stats, len, k).0 < len by {
        lemma_braking_run(pos, v, stats, len, k);
    }
}

} // verus!
