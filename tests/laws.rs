use viva_la_via::error::CoreError;
use viva_la_via::movement::{
    decide_command, update_position, update_speed, Position, SpeedStats, TrainCommand, Velocity,
};
use viva_la_via::simulation::Simulation;
use viva_la_via::track::{Segment, SegmentId, TrainId};

fn busy_line() -> Simulation {
    let lengths = [30u32, 7, 55, 12, 40, 3, 80];
    let mut sim = Simulation::new(lengths.iter().map(|&length| Segment { length }).collect(), 500, 10);
    let route: Vec<SegmentId> = (0..lengths.len()).map(SegmentId).collect();
    sim.add_train("Train 1".to_string(), route.clone(), 0, SpeedStats::new(2, 3, 9)).unwrap();
    sim.add_train("Train 2".to_string(), route.clone(), 2, SpeedStats::new(1, 1, 4)).unwrap();
    sim.add_train("Train 3".to_string(), route, 4, SpeedStats::new(3, 2, 12)).unwrap();
    sim.set_started(true);
    sim
}

#[test]
fn at_most_one_train_per_segment_and_registry_agrees() {
    let mut sim = busy_line();
    for _ in 0..300 {
        sim.tick();
        let occupancy = sim.track().segment_trains();
        for s in 0..sim.track().len() {
            let holders: Vec<usize> = (0..sim.trains().len())
                .filter(|&k| sim.trains()[k].schedule.current() == SegmentId(s))
                .collect();
            assert!(holders.len() <= 1);
            if let Some(&k) = holders.first() {
                assert_eq!(occupancy[s].0, Some(TrainId(k)));
            }
        }
    }
}

#[test]
fn cursor_never_decreases_and_velocity_stays_in_envelope() {
    let mut sim = busy_line();
    for _ in 0..300 {
        let before: Vec<usize> = sim.trains().iter().map(|t| t.schedule.current_index()).collect();
        sim.tick();
        for (k, t) in sim.trains().iter().enumerate() {
            let now = t.schedule.current_index();
            assert!(before[k] <= now && now <= before[k] + 1);
            assert!(t.velocity.0 <= t.stats.max_speed());
        }
    }
}

#[test]
fn crossing_carries_over_and_never_enters_an_occupied_segment() {
    let mut sim = busy_line();
    let mut crossings = 0;
    for _ in 0..300 {
        let before: Vec<(usize, u64, u32)> = sim
            .trains()
            .iter()
            .map(|t| {
                let len = sim.track().length_of(t.schedule.current()).unwrap();
                (t.schedule.current_index(), t.position.0, len)
            })
            .collect();
        let occupancy_before: Vec<Option<TrainId>> =
            sim.track().segment_trains().iter().map(|s| s.0).collect();
        sim.tick();
        for (k, t) in sim.trains().iter().enumerate() {
            let (index, position, len) = before[k];
            if t.schedule.current_index() > index {
                crossings += 1;
                assert_eq!(t.position.0, position + t.velocity.0 as u64 - len as u64);
                assert_eq!(occupancy_before[t.schedule.current().0], None);
                assert_eq!(t.old_position.0, 0);
            }
        }
    }
    assert!(crossings > 0);
}

#[test]
fn braking_from_top_speed_stops_short_of_the_segment_end() {
    let stats = SpeedStats::new(2, 3, 20);
    let len: u32 = 200;
    // Braking distance from 20 is 20 * 20 / (2 * 3) = 66.7; leave exactly 67.
    let mut position = Position(133);
    let mut velocity = Velocity(20);
    let command = decide_command(velocity, TrainCommand::Accelerate, &stats, len, position, false, 10);
    assert_eq!(command, TrainCommand::Brake);
    let ticks = (20 + 3 - 1) / 3;
    for _ in 0..ticks {
        velocity = update_speed(velocity, &stats, TrainCommand::Brake);
        let moved = update_position(position, velocity, len, true);
        assert!(!moved.crossed);
        position = moved.position;
        assert!(position.0 < len as u64);
    }
    assert_eq!(velocity.0, 0);
    assert_eq!(position.0, 133 + 17 + 14 + 11 + 8 + 5 + 2);
}

#[test]
fn trains_converging_on_one_segment_fault_the_later_one() {
    let mut sim = Simulation::new(
        vec![Segment { length: 10 }, Segment { length: 10 }, Segment { length: 100 }],
        1000,
        1,
    );
    sim.add_train("Train 1".to_string(), vec![SegmentId(0), SegmentId(2)], 0, SpeedStats::new(1, 1, 5))
        .unwrap();
    sim.add_train("Train 2".to_string(), vec![SegmentId(1), SegmentId(2)], 0, SpeedStats::new(1, 1, 5))
        .unwrap();
    sim.set_started(true);
    for _ in 0..4 {
        sim.tick();
    }
    // Both trains reach the end of their segments in the fourth tick.
    let first = &sim.trains()[0];
    let second = &sim.trains()[1];
    assert_eq!(first.schedule.current(), SegmentId(2));
    assert_eq!(first.fault, None);
    assert_eq!(second.fault, Some(CoreError::SegmentAlreadyOccupied));
    assert_eq!(second.schedule.current(), SegmentId(1));
    assert_eq!(second.position.0, 10);
    assert_eq!(second.velocity.0, 0);
    assert_eq!(sim.track().occupant_of(SegmentId(0)), Ok(None));
    assert_eq!(sim.track().occupant_of(SegmentId(1)), Ok(Some(TrainId(1))));
    assert_eq!(sim.track().occupant_of(SegmentId(2)), Ok(Some(TrainId(0))));
    // A stopped train no longer moves.
    sim.tick();
    assert_eq!(sim.trains()[1].position.0, 10);
    assert_eq!(sim.trains()[1].velocity.0, 0);
}

#[test]
fn closed_gate_holds_everything_at_rest() {
    let mut sim = busy_line();
    sim.toggle_started();
    assert!(!sim.is_started());
    for _ in 0..10 {
        sim.tick();
    }
    assert_eq!(sim.clock().ticks(), 0);
    assert!(sim.trains().iter().all(|t| t.position.0 == 0 && t.velocity.0 == 0));
    sim.toggle_started();
    sim.tick();
    assert_eq!(sim.clock().ticks(), 1);
    assert_eq!(sim.trains()[0].velocity.0, 2);
}

#[test]
fn crossing_toward_an_occupied_segment_is_an_invariant_violation() {
    // A segment of length zero is crossed at once, even at rest.
    let mut sim = Simulation::new(vec![Segment { length: 0 }, Segment { length: 10 }], 1000, 1);
    sim.add_train("Train 1".to_string(), vec![SegmentId(0), SegmentId(1)], 0, SpeedStats::new(1, 1, 5))
        .unwrap();
    sim.add_train("Train 2".to_string(), vec![SegmentId(1)], 0, SpeedStats::new(1, 1, 5)).unwrap();
    sim.set_started(true);
    sim.tick();
    let t = &sim.trains()[0];
    assert_eq!(t.command, TrainCommand::Brake);
    assert_eq!(t.fault, Some(CoreError::InvariantViolation));
    assert_eq!(t.schedule.current(), SegmentId(0));
    assert_eq!((t.position.0, t.velocity.0), (0, 0));
    assert_eq!(sim.track().occupant_of(SegmentId(0)), Ok(Some(TrainId(0))));
    assert_eq!(sim.track().occupant_of(SegmentId(1)), Ok(Some(TrainId(1))));
}
