//! World constants shared by every subsystem of the simulation.
//!
//! Distances, speeds and stamina are fixed-point integers in milliunits:
//! one track unit is `MILLI` milliunits, one stamina point is `MILLI`
//! milli-points. Rates are per second; the fixed tick divides them by
//! `TICK_RATE`.

use vstd::prelude::*;
use crate::movement::Vec3Milli;

verus! {

/// Spawn position of every participant, a little before the first region.
pub fn start_position() -> (r: Vec3Milli)
    ensures
        r == (Vec3Milli { x: -100_000i64, y: 0i64, z: 0i64 }),
{
    Vec3Milli { x: -100_000, y: 0, z: 0 }
}

/// Fixed simulation steps per second.
pub const TICK_RATE: u32 = 60;

/// Room-state broadcasts per second aimed for by the frame loop.
pub const SNAPSHOT_RATE: u32 = 20;

/// Protocol identifier for the datagram session layer.
pub const PROTOCOL_ID: u64 = 7_812_345_678_901;

/// Most participants one room admits.
pub const MAX_PLAYERS: usize = 8;

/// Milliunits per track unit (the fixed-point scale).
pub const MILLI: i64 = 1_000;

/// Length of the track along the primary axis, in milliunits.
pub const TRACK_LENGTH: i64 = 3_600_000;

/// Stamina drained per second while boosting, in milli-points.
pub const BOOST_COST: i64 = 35_000;

/// Stamina regained per second while not boosting, in milli-points.
pub const BOOST_REGEN: i64 = 15_000;

/// Cruise speed, in milliunits per second.
pub const BASE_SPEED: i64 = 250_000;

/// Boost speed, in milliunits per second.
pub const BOOST_SPEED: i64 = 420_000;

/// Collision radius of one participant, in milliunits.
pub const PLAYER_RADIUS: i64 = 14_000;

/// Upper stamina bound, in milli-points.
pub const STAMINA_MAX: i64 = 100_000;

/// Least stamina that still allows a boost tick (0.1 points), in milli-points.
pub const BOOST_MIN_STAMINA: i64 = 100;

/// Countdown duration in milliseconds.
pub const COUNTDOWN_MILLIS: u32 = 3_000;

/// Countdown duration in whole simulation ticks.
pub const COUNTDOWN_TICKS: u32 = COUNTDOWN_MILLIS / 1_000 * TICK_RATE;

/// Positions are kept inside [-POS_LIMIT, POS_LIMIT] on every axis so that
/// the integer arithmetic of the integrator can never overflow.
pub const POS_LIMIT: i64 = 1_000_000_000_000_000;

/// Numerator of the rational approximation of 1/sqrt(2) used to normalize
/// diagonal movement. The ratio is chosen at or below the real value, so a
/// diagonal velocity never exceeds the selected speed.
pub const INV_SQRT2_NUM: i64 = 707_106;

/// Denominator of the rational approximation of 1/sqrt(2).
pub const INV_SQRT2_DEN: i64 = 1_000_000;

/// Lower boundary of the second region, in milliunits.
pub const MARKER_CERVIX: i64 = 400_000;

/// Lower boundary of the third region, in milliunits.
pub const MARKER_UTERUS: i64 = 1_100_000;

/// Lower boundary of the fourth region, in milliunits.
pub const MARKER_UTJ: i64 = 1_700_000;

/// Lower boundary of the fifth region, in milliunits.
pub const MARKER_TUBE: i64 = 2_600_000;

/// Lower boundary of the terminal region, in milliunits.
pub const MARKER_AMPULLA: i64 = 3_600_000;

} // verus!
