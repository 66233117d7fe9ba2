//! Block-signalling core of a rail traffic simulation.
//!
//! Trains run along fixed schedules of track segments. Each tick a control
//! policy decides whether a train accelerates or brakes, an integrator moves
//! it, and boundary crossings transfer segment occupancy so that no two trains
//! ever hold the same segment.
//!
//! All quantities are integers in units chosen by the caller: lengths and
//! positions in length units, velocities in length units per tick, and
//! accelerations in velocity units per tick.

use vstd::prelude::*;

pub mod clock;
pub mod error;
pub mod movement;
pub mod schedule;
pub mod simulation;
pub mod track;

verus! {

/// Marker naming the camera collaborator of the simulation.
///
/// The core keeps no camera state; the type exists so that hosts can refer
/// to the camera part of the application by the same name as the rest.
pub struct CameraPlugin;

} // verus!
