use viva_la_via::clock::SimulationClock;
use viva_la_via::error::CoreError;
use viva_la_via::movement::{
    decide_command, update_position, update_speed, OldPosition, Position, SpeedStats,
    TrainCommand, Velocity,
};
use viva_la_via::schedule::TrainSchedule;
use viva_la_via::simulation::{Simulation, DEFAULT_SAFETY_MARGIN};
use viva_la_via::track::{Segment, SegmentId, SegmentTrain, Track, TrainId};

fn three_segments() -> Vec<SegmentId> {
    vec![SegmentId(4), SegmentId(7), SegmentId(9)]
}

#[test]
fn schedule_cursor_looks_ahead_and_behind() {
    let s = TrainSchedule::new(three_segments(), 1).unwrap();
    assert_eq!(s.current(), SegmentId(7));
    assert_eq!(s.next(), Some(SegmentId(9)));
    assert_eq!(s.previous(), Some(SegmentId(4)));
    assert_eq!(s.current_index(), 1);
    assert_eq!(s.segments().len(), 3);
    let first = TrainSchedule::new(three_segments(), 0).unwrap();
    assert_eq!(first.previous(), None);
}

#[test]
fn schedule_advances_one_step_until_exhausted() {
    let mut s = TrainSchedule::new(three_segments(), 1).unwrap();
    assert_eq!(s.advance(), Ok(()));
    assert_eq!(s.current(), SegmentId(9));
    assert_eq!(s.next(), None);
    assert_eq!(s.advance(), Err(CoreError::ScheduleExhausted));
    assert_eq!(s.current_index(), 2);
}

#[test]
fn schedule_start_out_of_range_is_refused() {
    assert!(matches!(TrainSchedule::new(three_segments(), 3), Err(CoreError::ScheduleExhausted)));
    assert!(matches!(TrainSchedule::new(Vec::new(), 0), Err(CoreError::ScheduleExhausted)));
}

#[test]
fn registry_reserve_and_release_defend_single_occupancy() {
    let mut track = Track::new(vec![Segment { length: 5 }, Segment { length: 8 }]);
    assert_eq!(track.len(), 2);
    assert!(track.is_free(SegmentId(0)));
    assert!(!track.is_free(SegmentId(2)));
    assert_eq!(track.reserve(SegmentId(0), TrainId(3)), Ok(()));
    assert_eq!(track.occupant_of(SegmentId(0)), Ok(Some(TrainId(3))));
    assert!(!track.is_free(SegmentId(0)));
    assert_eq!(track.reserve(SegmentId(0), TrainId(3)), Ok(()));
    assert_eq!(track.reserve(SegmentId(0), TrainId(4)), Err(CoreError::SegmentAlreadyOccupied));
    assert_eq!(track.release(SegmentId(0), TrainId(4)), Err(CoreError::InvariantViolation));
    assert_eq!(track.occupant_of(SegmentId(0)), Ok(Some(TrainId(3))));
    assert_eq!(track.release(SegmentId(0), TrainId(3)), Ok(()));
    assert_eq!(track.occupant_of(SegmentId(0)), Ok(None));
    assert_eq!(track.release(SegmentId(0), TrainId(3)), Err(CoreError::InvariantViolation));
}

#[test]
fn registry_rejects_unknown_segments() {
    let mut track = Track::new(vec![Segment { length: 5 }]);
    assert_eq!(track.occupant_of(SegmentId(1)), Err(CoreError::InvalidHandle));
    assert_eq!(track.length_of(SegmentId(1)), Err(CoreError::InvalidHandle));
    assert_eq!(track.reserve(SegmentId(1), TrainId(0)), Err(CoreError::InvalidHandle));
    assert_eq!(track.release(SegmentId(1), TrainId(0)), Err(CoreError::InvalidHandle));
    assert_eq!(track.length_of(SegmentId(0)), Ok(5));
}

#[test]
fn track_lists_its_segments_in_order() {
    let track = Track::new(vec![Segment { length: 5 }, Segment { length: 6 }, Segment { length: 7 }]);
    let lines = track.lines();
    assert_eq!(lines.0, vec![SegmentId(0), SegmentId(1), SegmentId(2)]);
    assert!(track.segment_trains().iter().all(|s| *s == SegmentTrain(None)));
}

#[test]
fn command_acceleration_follows_the_envelope() {
    let stats = SpeedStats::new(2, 5, 30);
    assert_eq!(TrainCommand::Accelerate.acceleration(&stats), 2);
    assert_eq!(TrainCommand::Hold.acceleration(&stats), 0);
    assert_eq!(TrainCommand::Brake.acceleration(&stats), -5);
    assert_eq!(TrainCommand::Custom(-7).acceleration(&stats), -7);
    assert_eq!((stats.acceleration(), stats.brake_speed(), stats.max_speed()), (2, 5, 30));
}

#[test]
fn speed_update_clamps_to_envelope() {
    let stats = SpeedStats::new(2, 5, 30);
    assert_eq!(update_speed(Velocity(10), &stats, TrainCommand::Accelerate), Velocity(12));
    assert_eq!(update_speed(Velocity(29), &stats, TrainCommand::Accelerate), Velocity(30));
    assert_eq!(update_speed(Velocity(10), &stats, TrainCommand::Hold), Velocity(10));
    assert_eq!(update_speed(Velocity(10), &stats, TrainCommand::Brake), Velocity(5));
    assert_eq!(update_speed(Velocity(3), &stats, TrainCommand::Brake), Velocity(0));
    assert_eq!(update_speed(Velocity(3), &stats, TrainCommand::Custom(-9)), Velocity(0));
    assert_eq!(update_speed(Velocity(3), &stats, TrainCommand::Custom(100)), Velocity(30));
    assert_eq!(update_speed(Velocity(3), &stats, TrainCommand::Custom(4)), Velocity(7));
}

#[test]
fn position_update_moves_crosses_or_clamps() {
    let within = update_position(Position(10), Velocity(5), 20, true);
    assert_eq!((within.position, within.old_position, within.crossed), (Position(15), OldPosition(10), false));
    let crossing = update_position(Position(18), Velocity(5), 20, true);
    assert_eq!((crossing.position, crossing.old_position, crossing.crossed), (Position(3), OldPosition(0), true));
    let exact = update_position(Position(15), Velocity(5), 20, true);
    assert_eq!((exact.position, exact.crossed), (Position(0), true));
    let end = update_position(Position(18), Velocity(5), 20, false);
    assert_eq!((end.position, end.old_position, end.crossed), (Position(20), OldPosition(18), false));
}

#[test]
fn control_policy_decisions() {
    let stats = SpeedStats::new(1, 2, 20);
    // Next segment free: always accelerate, however close the end.
    assert_eq!(
        decide_command(Velocity(20), TrainCommand::Accelerate, &stats, 100, Position(99), true, 10),
        TrainCommand::Accelerate
    );
    // Far from the end: 2*2*(100-0-10-0) = 360 > 10*10 + 2*2*10 = 140.
    assert_eq!(
        decide_command(Velocity(10), TrainCommand::Hold, &stats, 100, Position(0), false, 10),
        TrainCommand::Accelerate
    );
    // Within braking distance plus margin: 2*2*(100-50-10-1) = 156 <= 11*11 + 40 = 161.
    assert_eq!(
        decide_command(Velocity(10), TrainCommand::Accelerate, &stats, 100, Position(50), false, 10),
        TrainCommand::Brake
    );
    // One step further away it does not brake yet: 2*2*(100-48-10-1) = 164 > 161.
    assert_eq!(
        decide_command(Velocity(10), TrainCommand::Accelerate, &stats, 100, Position(48), false, 10),
        TrainCommand::Accelerate
    );
    // The previous command changes the look-ahead: braking already, 2*2*(100-50-10+2) = 168 > 8*8 + 40.
    assert_eq!(
        decide_command(Velocity(10), TrainCommand::Brake, &stats, 100, Position(50), false, 10),
        TrainCommand::Accelerate
    );
    // At rest but inside the margin.
    assert_eq!(
        decide_command(Velocity(0), TrainCommand::Hold, &stats, 100, Position(90), false, 10),
        TrainCommand::Brake
    );
}

#[test]
fn spawning_validates_schedule_and_occupancy() {
    let mut sim = Simulation::new(vec![Segment { length: 5 }, Segment { length: 6 }], 10, DEFAULT_SAFETY_MARGIN);
    let stats = SpeedStats::new(1, 1, 3);
    assert_eq!(sim.safety_margin(), 10);
    assert_eq!(
        sim.add_train("A".to_string(), vec![SegmentId(0)], 1, stats),
        Err(CoreError::ScheduleExhausted)
    );
    assert_eq!(
        sim.add_train("A".to_string(), vec![SegmentId(0), SegmentId(5)], 0, stats),
        Err(CoreError::InvalidHandle)
    );
    assert_eq!(sim.add_train("A".to_string(), vec![SegmentId(1)], 0, stats), Ok(TrainId(0)));
    assert_eq!(
        sim.add_train("B".to_string(), vec![SegmentId(0), SegmentId(1)], 1, stats),
        Err(CoreError::SegmentAlreadyOccupied)
    );
    assert_eq!(sim.trains().len(), 1);
    let t = &sim.trains()[0];
    assert_eq!(t.name, "A");
    assert_eq!(t.command, TrainCommand::Hold);
    assert_eq!(sim.track().occupant_of(SegmentId(1)), Ok(Some(TrainId(0))));
    assert_eq!(sim.track().occupant_of(SegmentId(0)), Ok(None));
}

#[test]
fn clock_counts_fixed_ticks() {
    let mut clock = SimulationClock::new(500);
    assert_eq!(clock.elapsed_micros(), 0);
    clock.advance();
    clock.advance();
    assert_eq!(clock.ticks(), 2);
    assert_eq!(clock.tick_micros(), 500);
    assert_eq!(clock.elapsed_micros(), 1000);
}

#[test]
fn arithmetic_holds_at_the_integer_limits() {
    let stats = SpeedStats::new(u32::MAX, u32::MAX, u32::MAX);
    let v = Velocity(u32::MAX);
    assert_eq!(update_speed(v, &stats, TrainCommand::Accelerate), Velocity(u32::MAX));
    assert_eq!(update_speed(v, &stats, TrainCommand::Brake), Velocity(0));
    assert_eq!(update_speed(v, &stats, TrainCommand::Custom(i32::MIN)), Velocity(u32::MAX - (1u32 << 31)));
    assert_eq!(
        decide_command(v, TrainCommand::Custom(i32::MAX), &stats, u32::MAX, Position(u64::MAX), false, u32::MAX),
        TrainCommand::Brake
    );
    assert_eq!(
        decide_command(Velocity(0), TrainCommand::Brake, &stats, u32::MAX, Position(0), false, 0),
        TrainCommand::Accelerate
    );
    let far = update_position(Position(u64::MAX - u32::MAX as u64), v, u32::MAX, true);
    assert_eq!((far.position.0, far.crossed), (u64::MAX - u32::MAX as u64, true));
}

#[test]
fn empty_roster_only_advances_the_clock() {
    let mut sim = Simulation::new(Vec::new(), 250, 3);
    sim.tick();
    assert_eq!(sim.clock().ticks(), 0);
    sim.set_started(true);
    sim.tick();
    sim.tick();
    assert_eq!(sim.clock().ticks(), 2);
    assert_eq!(sim.clock().elapsed_micros(), 500);
    assert_eq!(sim.track().len(), 0);
    assert!(sim.trains().is_empty());
}
