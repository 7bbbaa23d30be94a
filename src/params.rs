use vstd::prelude::*;

verus! {

// Lengths are in milli-pixels, times in microseconds, speeds in
// milli-pixels per second, forces (per unit mass) in milli-pixels per second².

/// Milli-pixels in one pixel.
pub const UNIT: i64 = 1000;

/// Microseconds in one second.
pub const MICROS_PER_SECOND: i64 = 1_000_000;

/// Visual and contact radius of one particle.
pub const PARTICLE_RADIUS: i64 = 3000;

/// Number of particles the balloon is built from.
pub const PARTICLE_COUNT: usize = 1000;

/// Target radius of the initial balloon.
pub const BALLOON_RADIUS: i64 = 60_000;

/// Separation at which a spring exerts no force.
pub const REST_LENGTH: i64 = 6000;

/// Spring constant, per second².
pub const STIFFNESS: i64 = 300;

/// Damping coefficient, per second.
pub const DAMPING: i64 = 2;

/// Downward acceleration of gravity.
pub const GRAVITY: i64 = 500_000;

/// A ground bounce keeps `REBOUND_NUM / REBOUND_DEN` of the vertical speed, reversed.
pub const REBOUND_NUM: i64 = 3;

pub const REBOUND_DEN: i64 = 10;

/// Distance between consecutive rings of the layout.
pub const RING_PITCH: i64 = 6000;

/// Arc length allotted to one particle on a ring.
pub const ARC_SPACING: i64 = 7500;

/// Fewest particles on a ring other than the center.
pub const MIN_RING_POINTS: i64 = 6;

/// The rational approximation 355/113 of pi.
pub const PI_NUM: i64 = 355;

pub const PI_DEN: i64 = 113;

/// Pairs whose squared distance is at most this exert no force.
pub const MIN_SEPARATION_SQ: i64 = 100;

/// Launch speed of a projectile.
pub const PROJECTILE_SPEED: i64 = 800_000;

/// Collision radius of a projectile.
pub const PROJECTILE_RADIUS: i64 = 5000;

/// Every coordinate is kept within `-MAX_COORD ..= MAX_COORD`.
pub const MAX_COORD: i64 = 1_000_000_000;

/// The layout's center must lie within `-CENTER_LIMIT ..= CENTER_LIMIT`.
pub const CENTER_LIMIT: i64 = 500_000_000;

/// Every velocity component is kept within `-MAX_SPEED ..= MAX_SPEED`.
pub const MAX_SPEED: i64 = 100_000_000;

/// Every accumulated force component stays within `-FORCE_LIMIT ..= FORCE_LIMIT`.
pub const FORCE_LIMIT: i64 = 1_000_000_000_000_000;

/// Largest number of particles a field holds.
pub const MAX_PARTICLES: usize = 10_000;

/// Bound on each component of the force that one pair exerts:
/// `STIFFNESS * REST_LENGTH + 4 * DAMPING * MAX_SPEED`.
pub const PAIR_FORCE_LIMIT: i64 = 801_800_000;

/// Bound on what one spring solve adds to a force component: `MAX_PARTICLES * PAIR_FORCE_LIMIT`.
pub const SPRING_BUDGET: i64 = 8_018_000_000_000;

} // verus!
